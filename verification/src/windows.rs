//! The decisions of the desktop probes.
//!
//! The probes themselves call into the operating system; what they decide
//! on the answers is written here over plain values. The caller makes each
//! system call and hands the answer over.

use crate::shared::{Program, ProgramView};
use crate::watcher::WatcherEvent;
use std::collections::HashSet;
use std::path::Path;
use vstd::prelude::*;
use vstd::slice::slice_subrange;
use vstd::string::StringExecFns;

verus! {

/// Why the focus probe gave up.
#[derive(Debug, PartialEq, Eq)]
pub enum ProbeError {
    /// The system refused to install the foreground-change hook.
    HookRegistration,
    /// Taking the next message failed with this system error code.
    MessageLoop { code: u32 },
}

impl ProbeError {
    /// The error in words.
    pub fn message(&self) -> (text: String)
        ensures
            self is HookRegistration ==> text@ == "watcher SetWinEventHook error"@,
            self is MessageLoop ==> text@ == "watcher message loop error"@,
    {
        match self {
            ProbeError::HookRegistration => "watcher SetWinEventHook error".to_string(),
            ProbeError::MessageLoop { .. } => "watcher message loop error".to_string(),
        }
    }
}

/// What the message loop does with the answer to one request for a message.
#[derive(Debug, PartialEq, Eq)]
pub enum Pump {
    /// Translate and dispatch the message, then ask for the next.
    Dispatch,
    /// Nothing to dispatch: ask for the next message.
    Retry,
    /// The quit message arrived: leave the loop in good order.
    Quit,
    /// Leave the loop with an error.
    Fail(ProbeError),
}

/// Whether `hwnd` is a window handle at all: the null handle is not.
pub fn is_main_window(hwnd: isize) -> (main: bool)
    ensures
        main == (hwnd != 0),
{
    hwnd != 0
}

/// The watch on foreground changes: it holds the installed hook.
#[derive(Debug)]
pub struct Watcher {
    handle: isize,
}

impl Watcher {
    /// The handle the system gave for the hook.
    pub closed spec fn spec_handle(&self) -> isize {
        self.handle
    }

    #[verifier::type_invariant]
    spec fn installed(self) -> bool {
        self.handle != 0
    }

    /// Takes the answer of the system to the request for a hook. The null
    /// handle means that the hook was refused.
    pub fn init(handle: isize) -> (watch: Result<Watcher, ProbeError>)
        ensures
            handle == 0 <==> watch is Err,
            watch matches Err(error) ==> error == ProbeError::HookRegistration,
            watch matches Ok(installed) ==> installed.spec_handle() == handle,
    {
        if handle == 0 {
            Err(ProbeError::HookRegistration)
        } else {
            Ok(Watcher { handle })
        }
    }

    /// The handle the system gave for the hook; it is never null.
    #[verifier::when_used_as_spec(spec_handle)]
    pub fn handle(&self) -> (handle: isize)
        ensures
            handle == self.spec_handle(),
            handle != 0,
    {
        proof {
            use_type_invariant(self);
        }
        self.handle
    }
}

/// The focus probe while it runs: it holds the hook and pumps messages.
#[derive(Debug)]
pub struct App {
    watch: Watcher,
}

impl App {
    /// The hook the probe holds.
    pub closed spec fn spec_hook(&self) -> isize {
        self.watch.spec_handle()
    }

    /// Starts the probe on the answer of the system to the request for a
    /// foreground-change hook. With a hook the probe runs: the caller then
    /// starts the audio probe and pumps messages through
    /// [`App::eventloop`]. Without one it fails.
    pub fn start(hook: isize) -> (app: Result<App, ProbeError>)
        ensures
            hook == 0 <==> app is Err,
            app matches Err(error) ==> error == ProbeError::HookRegistration,
            app matches Ok(running) ==> running.spec_hook() == hook,
    {
        match Watcher::init(hook) {
            Ok(watch) => Ok(App { watch }),
            Err(error) => Err(error),
        }
    }

    /// The hook the probe holds, to be released when the probe stops; it is
    /// never null.
    #[verifier::when_used_as_spec(spec_hook)]
    pub fn hook(&self) -> (hook: isize)
        ensures
            hook == self.spec_hook(),
            hook != 0,
    {
        self.watch.handle()
    }

    /// Decides on the answer to one request for a message. `answer` is what
    /// the request returned and `last_error` the system error code read
    /// right after it. A zero answer is the quit message; minus one is a
    /// failure, fatal unless the error code is zero; any other answer is a
    /// message to dispatch.
    pub fn eventloop(&self, answer: i32, last_error: u32) -> (pump: Pump)
        ensures
            pump == pump_for(answer, last_error),
    {
        if answer == -1 {
            if last_error != 0 {
                Pump::Fail(ProbeError::MessageLoop { code: last_error })
            } else {
                Pump::Retry
            }
        } else if answer == 0 {
            Pump::Quit
        } else {
            Pump::Dispatch
        }
    }
}

/// What the message loop does on `answer` and `last_error`.
pub open spec fn pump_for(answer: i32, last_error: u32) -> Pump {
    if answer == -1 {
        if last_error != 0 {
            Pump::Fail(ProbeError::MessageLoop { code: last_error })
        } else {
            Pump::Retry
        }
    } else if answer == 0 {
        Pump::Quit
    } else {
        Pump::Dispatch
    }
}

/// The report of the focus probe on a foreground change. `id_object` is the
/// object the change is about, zero for a window itself; `path` is the
/// program of that window, if it could be found. Only a change of a window
/// whose program is known is reported, as a focus activation.
pub fn focus_event(id_object: i32, path: Option<String>) -> (event: Option<WatcherEvent>)
    ensures
        event is Some <==> id_object == 0 && path is Some,
        event matches Some(e) ==> e.path == path->0 && !e.is_audio && e.active,
{
    if id_object != 0 {
        return None;
    }
    match path {
        Some(path) => Some(WatcherEvent { path, is_audio: false, active: true }),
        None => None,
    }
}

/// The state of an audio session.
#[derive(Clone, Copy, Debug, PartialEq, Eq, Structural)]
pub enum SessionState {
    Inactive,
    Active,
    Expired,
}

/// What an audio session reports.
#[derive(Clone, Copy, Debug, PartialEq, Eq, Structural)]
pub enum AudioSessionEvent {
    /// The session changed its state.
    StateChange(SessionState),
    /// Anything else, such as a change of volume.
    Other,
}

/// The report of the audio probe on what the session of `path` reports.
/// Only a change of state is reported: as an audio activation when the
/// session became active, as an audio deactivation otherwise.
pub fn audio_event(event: AudioSessionEvent, path: String) -> (report: Option<WatcherEvent>)
    ensures
        report is Some <==> event is StateChange,
        report matches Some(e) ==> e.path == path && e.is_audio && e.active == (event
            == AudioSessionEvent::StateChange(SessionState::Active)),
{
    match event {
        AudioSessionEvent::StateChange(state) => {
            let active = state == SessionState::Active;
            Some(WatcherEvent { path, is_audio: true, active })
        },
        AudioSessionEvent::Other => None,
    }
}

/// The audio activation the snapshot owes for `path`.
pub open spec fn playing(path: String) -> WatcherEvent {
    WatcherEvent { path, is_audio: true, active: true }
}

/// The reports of the audio probe when the engine announces its running
/// flag: a started engine is told of every session that plays, in the order
/// of `paths`; a stopped one is told nothing.
pub fn watch_audio(running: bool, paths: &Vec<String>) -> (reports: Vec<WatcherEvent>)
    ensures
        !running ==> reports@.len() == 0,
        running ==> reports@ == paths@.map_values(|path: String| playing(path)),
{
    let mut reports: Vec<WatcherEvent> = Vec::new();
    if !running {
        return reports;
    }
    let mut i: usize = 0;
    while i < paths.len()
        invariant
            i <= paths.len(),
            reports@ == paths@.take(i as int).map_values(|path: String| playing(path)),
        decreases paths.len() - i,
    {
        let path = paths[i].clone();
        reports.push(WatcherEvent { path, is_audio: true, active: true });
        proof {
            assert(paths@.take(i + 1) =~= paths@.take(i as int).push(paths@[i as int]));
            assert(reports@ =~= paths@.take(i + 1).map_values(|path: String| playing(path)));
        }
        i += 1;
    }
    assert(paths@.take(paths.len() as int) =~= paths@);
    reports
}

/// The text that `String::from_utf16_lossy` decodes `units` to.
pub uninterp spec fn utf16_lossy(units: Seq<u16>) -> Seq<char>;

/// `String::from_utf16_lossy`: decodes UTF-16, putting the replacement
/// character in the place of what is not valid. The result depends on
/// `units` alone.
#[verifier::external_body]
fn from_utf16_lossy(units: &[u16]) -> (text: String)
    ensures
        text@ == utf16_lossy(units@),
{
    String::from_utf16_lossy(units)
}

/// The first `len` units of `buffer`, or all of it where it holds fewer.
pub open spec fn filled(buffer: Seq<u16>, len: u32) -> Seq<u16> {
    if len <= buffer.len() {
        buffer.take(len as int)
    } else {
        buffer
    }
}

/// Decodes the first `len` units of `buffer`.
fn decode(buffer: &Vec<u16>, len: u32) -> (text: String)
    ensures
        text@ == utf16_lossy(filled(buffer@, len)),
{
    let end: usize = if (len as usize) <= buffer.len() {
        len as usize
    } else {
        buffer.len()
    };
    let units = slice_subrange(buffer.as_slice(), 0, end);
    assert(units@ =~= filled(buffer@, len));
    from_utf16_lossy(units)
}

/// The title of a window from what the system wrote: `len` units into
/// `buffer`. No units mean no title.
pub fn get_window_title(buffer: &Vec<u16>, len: u32) -> (title: String)
    ensures
        len == 0 ==> title@.len() == 0,
        len != 0 ==> title@ == utf16_lossy(filled(buffer@, len)),
{
    if len == 0 {
        return String::new();
    }
    decode(buffer, len)
}

/// The path of a program from its decoded text: an empty text is no path.
pub fn program_path(text: String) -> (path: Option<String>)
    ensures
        path is Some <==> text@.len() > 0,
        path matches Some(p) ==> p == text,
{
    if text.as_str().is_empty() {
        None
    } else {
        Some(text)
    }
}

/// The path of a program from the answer of the system to the query for
/// its image name: whether the query `succeeded`, and the `len` units it
/// wrote into `buffer`. A failed query, no units and an empty text all mean
/// that the path is not known.
pub fn get_program_path(succeeded: bool, buffer: &Vec<u16>, len: u32) -> (path: Option<String>)
    ensures
        path is Some <==> succeeded && len != 0 && utf16_lossy(filled(buffer@, len)).len() > 0,
        path matches Some(p) ==> p@ == utf16_lossy(filled(buffer@, len)),
{
    if !succeeded || len == 0 {
        return None;
    }
    program_path(decode(buffer, len))
}

/// The lower-case hexadecimal digit of `nibble`.
pub open spec fn hex_digit(nibble: int) -> Seq<char> {
    if nibble == 0 {
        "0"@
    } else if nibble == 1 {
        "1"@
    } else if nibble == 2 {
        "2"@
    } else if nibble == 3 {
        "3"@
    } else if nibble == 4 {
        "4"@
    } else if nibble == 5 {
        "5"@
    } else if nibble == 6 {
        "6"@
    } else if nibble == 7 {
        "7"@
    } else if nibble == 8 {
        "8"@
    } else if nibble == 9 {
        "9"@
    } else if nibble == 10 {
        "a"@
    } else if nibble == 11 {
        "b"@
    } else if nibble == 12 {
        "c"@
    } else if nibble == 13 {
        "d"@
    } else if nibble == 14 {
        "e"@
    } else {
        "f"@
    }
}

/// The four lower-case hexadecimal digits of `word`, most significant first.
pub open spec fn hex_word(word: u16) -> Seq<char> {
    hex_digit(word as int / 4096) + hex_digit(word as int / 256 % 16) + hex_digit(
        word as int / 16 % 16,
    ) + hex_digit(word as int % 16)
}

/// The lower-case hexadecimal digit of `nibble`.
fn digit(nibble: u16) -> (text: &'static str)
    requires
        nibble < 16,
    ensures
        text@ == hex_digit(nibble as int),
{
    if nibble == 0 {
        "0"
    } else if nibble == 1 {
        "1"
    } else if nibble == 2 {
        "2"
    } else if nibble == 3 {
        "3"
    } else if nibble == 4 {
        "4"
    } else if nibble == 5 {
        "5"
    } else if nibble == 6 {
        "6"
    } else if nibble == 7 {
        "7"
    } else if nibble == 8 {
        "8"
    } else if nibble == 9 {
        "9"
    } else if nibble == 10 {
        "a"
    } else if nibble == 11 {
        "b"
    } else if nibble == 12 {
        "c"
    } else if nibble == 13 {
        "d"
    } else if nibble == 14 {
        "e"
    } else {
        "f"
    }
}

/// Appends the four hexadecimal digits of `word` to `text`.
fn push_hex_word(text: &mut String, word: u16)
    ensures
        final(text)@ == old(text)@ + hex_word(word),
{
    text.append(digit(word / 4096));
    text.append(digit(word / 256 % 16));
    text.append(digit(word / 16 % 16));
    text.append(digit(word % 16));
    assert(text@ =~= old(text)@ + hex_word(word));
}

/// The name of the version-information block that holds the description of
/// an executable in the given language and code page, terminated by a
/// null character as the system asks.
pub fn file_description_block(language: u16, code_page: u16) -> (name: String)
    ensures
        name@ == "\\StringFileInfo\\"@ + hex_word(language) + hex_word(code_page)
            + "\\FileDescription\0"@,
{
    let mut name = String::from_str("\\StringFileInfo\\");
    push_hex_word(&mut name, language);
    push_hex_word(&mut name, code_page);
    name.append("\\FileDescription\0");
    name
}

/// Why an executable has no description to show.
#[derive(Debug, PartialEq, Eq)]
pub enum DisplayNameError {
    /// The executable carries no version information.
    NoVersionInfo,
    /// The system failed to read the version information or a value in it.
    ReadFailed,
    /// The version information names no language.
    NoTranslation,
    /// The version information holds no description.
    NoDescription,
}

impl DisplayNameError {
    /// The error in words.
    pub fn message(&self) -> (text: String)
        ensures
            self is NoVersionInfo ==> text@ == "no version info"@,
            self is ReadFailed ==> text@ == "version info not readable"@,
            self is NoTranslation ==> text@ == "no translation info"@,
            self is NoDescription ==> text@ == "no file description"@,
    {
        match self {
            DisplayNameError::NoVersionInfo => "no version info".to_string(),
            DisplayNameError::ReadFailed => "version info not readable".to_string(),
            DisplayNameError::NoTranslation => "no translation info".to_string(),
            DisplayNameError::NoDescription => "no file description".to_string(),
        }
    }
}

/// What stands in the way of the lookup of a description before the
/// description itself is asked for, if anything does: a version information
/// of `size` zero, a failed read, or a translation table of no bytes, in
/// that order.
pub open spec fn lookup_obstacle(size: u32, read: bool, translation_len: u32) -> Option<
    DisplayNameError,
> {
    if size == 0 {
        Some(DisplayNameError::NoVersionInfo)
    } else if !read {
        Some(DisplayNameError::ReadFailed)
    } else if translation_len == 0 {
        Some(DisplayNameError::NoTranslation)
    } else {
        None
    }
}

/// Decides whether the lookup of a description goes on. `size` is the size
/// of the version information, `read` whether every read made so far
/// succeeded, `translation_len` the bytes of the translation table.
pub fn description_lookup(size: u32, read: bool, translation_len: u32) -> (go_on: Result<
    (),
    DisplayNameError,
>)
    ensures
        go_on is Ok <==> lookup_obstacle(size, read, translation_len) is None,
        go_on matches Err(error) ==> lookup_obstacle(size, read, translation_len) == Some(error),
{
    if size == 0 {
        Err(DisplayNameError::NoVersionInfo)
    } else if !read {
        Err(DisplayNameError::ReadFailed)
    } else if translation_len == 0 {
        Err(DisplayNameError::NoTranslation)
    } else {
        Ok(())
    }
}

/// The description of an executable from what the system answered: the
/// `size` of the version information, whether every `read` succeeded, the
/// bytes of the translation table, and the `len` units of the description
/// written into `buffer`, the last of them the terminating null. The lookup
/// fails on what [`description_lookup`] refuses and on a description of no
/// units, and succeeds otherwise.
pub fn get_display_name(
    size: u32,
    read: bool,
    translation_len: u32,
    buffer: &Vec<u16>,
    len: u32,
) -> (name: Result<String, DisplayNameError>)
    ensures
        name is Ok <==> lookup_obstacle(size, read, translation_len) is None && len != 0,
        name matches Ok(text) ==> text@ == utf16_lossy(filled(buffer@, (len - 1) as u32)),
        name matches Err(error) ==> (match lookup_obstacle(size, read, translation_len) {
            Some(obstacle) => error == obstacle,
            None => error == DisplayNameError::NoDescription,
        }),
{
    match description_lookup(size, read, translation_len) {
        Err(error) => Err(error),
        Ok(_) => {
            if len == 0 {
                Err(DisplayNameError::NoDescription)
            } else {
                Ok(decode(buffer, len - 1))
            }
        },
    }
}

/// What the system tells of one top-level window.
#[derive(Debug)]
pub struct WindowInfo {
    /// The handle of the window that owns this one; null if none does.
    pub owner: isize,
    /// Whether the owner is visible.
    pub visible: bool,
    /// The title of the owner.
    pub title: String,
    /// The process the owner belongs to.
    pub pid: u32,
}

/// Whether `window` counts as the main window of a program in the
/// foreground: it has an owner that is visible and titled.
pub open spec fn in_foreground(window: WindowInfo) -> bool {
    window.owner != 0 && window.visible && window.title@.len() > 0
}

/// The processes of the foreground windows among `windows`, each once, in
/// the order in which a window of theirs first occurs.
pub open spec fn foreground_pids(windows: Seq<WindowInfo>) -> Seq<u32>
    decreases windows.len(),
{
    if windows.len() == 0 {
        Seq::empty()
    } else {
        let earlier = foreground_pids(windows.drop_last());
        if in_foreground(windows.last()) && !earlier.contains(windows.last().pid) {
            earlier.push(windows.last().pid)
        } else {
            earlier
        }
    }
}

/// The processes that have a main window in the foreground, each once.
pub fn get_foreground_processes(windows: &Vec<WindowInfo>) -> (pids: Vec<u32>)
    ensures
        pids@ == foreground_pids(windows@),
        pids@.no_duplicates(),
        forall|pid: u32|
            pids@.contains(pid) <==> exists|i: int|
                0 <= i < windows@.len() && in_foreground(#[trigger] windows@[i]) && windows@[i].pid
                    == pid,
{
    broadcast use vstd::std_specs::hash::group_hash_axioms;

    let mut pids: Vec<u32> = Vec::new();
    let mut seen: HashSet<u32> = HashSet::new();
    let mut i: usize = 0;
    assert(windows@.take(0) =~= Seq::empty());
    while i < windows.len()
        invariant
            i <= windows.len(),
            forall|pid: u32| seen@.contains(pid) <==> pids@.contains(pid),
            pids@ == foreground_pids(windows@.take(i as int)),
            pids@.no_duplicates(),
            forall|pid: u32|
                pids@.contains(pid) <==> exists|k: int|
                    0 <= k < i && in_foreground(#[trigger] windows@[k]) && windows@[k].pid == pid,
        decreases windows.len() - i,
    {
        let window = &windows[i];
        let ghost before = pids@;
        proof {
            assert(windows@.take(i + 1).drop_last() =~= windows@.take(i as int));
            assert(windows@.take(i + 1).last() == windows@[i as int]);
        }
        if is_main_window(window.owner) && window.visible && !window.title.as_str().is_empty() {
            if !seen.contains(&window.pid) {
                seen.insert(window.pid);
                pids.push(window.pid);
                assert forall|pid: u32| seen@.contains(pid) <==> pids@.contains(pid) by {
                    if pid == window.pid {
                        assert(pids@[pids@.len() - 1] == pid);
                    } else if before.contains(pid) {
                        let j = choose|j: int| 0 <= j < before.len() && before[j] == pid;
                        assert(pids@[j] == pid);
                    } else if pids@.contains(pid) {
                        let j = choose|j: int| 0 <= j < pids@.len() && pids@[j] == pid;
                        assert(before[j] == pid);
                    }
                }
                assert forall|pid: u32| pids@.contains(pid) implies exists|k: int|
                    0 <= k < i + 1 && in_foreground(#[trigger] windows@[k]) && windows@[k].pid
                        == pid by {
                    if pid != window.pid {
                        let j = choose|j: int| 0 <= j < pids@.len() && pids@[j] == pid;
                        assert(before[j] == pid);
                        assert(before.contains(pid));
                    } else {
                        assert(in_foreground(windows@[i as int]));
                    }
                }
                assert forall|pid: u32|
                    (exists|k: int|
                        0 <= k < i + 1 && in_foreground(#[trigger] windows@[k]) && windows@[k].pid
                            == pid) implies pids@.contains(pid) by {
                    let k = choose|k: int|
                        0 <= k < i + 1 && in_foreground(#[trigger] windows@[k]) && windows@[k].pid
                            == pid;
                    if k < i {
                        assert(before.contains(pid));
                        let j = choose|j: int| 0 <= j < before.len() && before[j] == pid;
                        assert(pids@[j] == pid);
                    } else {
                        assert(pids@[pids@.len() - 1] == pid);
                    }
                }
            } else {
                assert forall|pid: u32|
                    (exists|k: int|
                        0 <= k < i + 1 && in_foreground(#[trigger] windows@[k]) && windows@[k].pid
                            == pid) implies pids@.contains(pid) by {
                    let k = choose|k: int|
                        0 <= k < i + 1 && in_foreground(#[trigger] windows@[k]) && windows@[k].pid
                            == pid;
                    if k == i {
                        assert(pids@.contains(window.pid));
                    }
                }
            }
        } else {
            assert forall|pid: u32|
                (exists|k: int|
                    0 <= k < i + 1 && in_foreground(#[trigger] windows@[k]) && windows@[k].pid
                        == pid) implies pids@.contains(pid) by {
                let k = choose|k: int|
                    0 <= k < i + 1 && in_foreground(#[trigger] windows@[k]) && windows@[k].pid
                        == pid;
                assert(k < i);
            }
        }
        i += 1;
    }
    assert(windows@.take(windows.len() as int) =~= windows@);
    pids
}

/// The file stem that `std::path::Path::file_stem` finds in `path`: the
/// file name without its extension, or `None` where the path names no file.
/// What separates the parts of a path is decided by the platform the
/// library is built for.
pub uninterp spec fn path_file_stem(path: Seq<char>) -> Option<Seq<char>>;

/// `std::path::Path::file_stem` on the path `path`. The result depends on
/// the text of the path alone.
#[verifier::external_body]
fn file_stem(path: &str) -> (stem: Option<String>)
    ensures
        text_of(stem) == path_file_stem(path@),
{
    match Path::new(path).file_stem() {
        Some(stem) => Some(stem.to_string_lossy().into_owned()),
        None => None,
    }
}

/// What could be found out about the program of one foreground process.
#[derive(Debug)]
pub struct ProgramFile {
    /// The path of the executable; `None` where it could not be had.
    pub path: Option<String>,
    /// The description in the version information of the executable;
    /// `None` where the lookup failed.
    pub display_name: Option<String>,
    /// The icon as PNG bytes; `None` where the lookup failed.
    pub icon: Option<Vec<u8>>,
}

/// The text that `held` holds, if it holds one.
pub open spec fn text_of(held: Option<String>) -> Option<Seq<char>> {
    match held {
        Some(text) => Some(text@),
        None => None,
    }
}

/// The name a program is listed under: the description of its executable;
/// where that is missing or empty, the file stem of its path; where the
/// path names no file, the path itself.
pub open spec fn listed_name(
    display_name: Option<Seq<char>>,
    stem: Option<Seq<char>>,
    path: Seq<char>,
) -> Seq<char> {
    if display_name is Some && display_name->0.len() > 0 {
        display_name->0
    } else if stem is Some {
        stem->0
    } else {
        path
    }
}

/// The name a program at `path` is listed under, given the description of
/// its executable and the file stem of its path as far as they were found.
pub fn program_name(display_name: Option<String>, stem: Option<String>, path: &String) -> (name:
    String)
    ensures
        name@ == listed_name(text_of(display_name), text_of(stem), path@),
{
    match display_name {
        Some(name) => {
            if !name.as_str().is_empty() {
                return name;
            }
        },
        None => {},
    }
    match stem {
        Some(stem) => stem,
        None => path.clone(),
    }
}

/// The icon a program is listed with: the one found, or none at all.
pub open spec fn listed_icon(icon: Option<Vec<u8>>) -> Seq<u8> {
    match icon {
        Some(bytes) => bytes@,
        None => Seq::empty(),
    }
}

/// The listing of `files`: one program for each file whose path is known,
/// in order. A lookup that failed costs a program its description or its
/// icon, never its place in the listing.
pub open spec fn program_list(files: Seq<ProgramFile>) -> Seq<ProgramView>
    decreases files.len(),
{
    if files.len() == 0 {
        Seq::empty()
    } else {
        let earlier = program_list(files.drop_last());
        let file = files.last();
        match file.path {
            Some(path) => earlier.push(
                ProgramView {
                    path: path@,
                    name: listed_name(
                        text_of(file.display_name),
                        path_file_stem(path@),
                        path@,
                    ),
                    icon: listed_icon(file.icon),
                },
            ),
            None => earlier,
        }
    }
}

/// The programs of `list` as the contracts see them.
pub open spec fn program_views(list: Seq<Program>) -> Seq<ProgramView> {
    list.map_values(|program: Program| program@)
}

/// Lists the programs the user can pick from what was found out about the
/// foreground processes.
pub fn get_program_list(files: Vec<ProgramFile>) -> (programs: Vec<Program>)
    ensures
        program_views(programs@) == program_list(files@),
{
    let ghost all = files@;
    let mut programs: Vec<Program> = Vec::new();
    let mut rest = files;
    let ghost mut taken: int = all.len() as int;
    assert(all.skip(taken) =~= Seq::empty());
    assert(all.take(taken) =~= all);
    let mut tail: Vec<Program> = Vec::new();
    assert(program_views(tail@) =~= Seq::empty());
    while rest.len() > 0
        invariant
            0 <= taken <= all.len(),
            rest@ == all.take(taken),
            program_list(all) == program_list(rest@) + program_views(tail@).reverse(),
        decreases rest.len(),
    {
        let ghost before = rest@;
        let ghost held = program_views(tail@);
        let file = rest.pop().unwrap();
        proof {
            assert(before.drop_last() =~= rest@);
            assert(before.last() == file);
            taken = taken - 1;
            assert(rest@ =~= all.take(taken));
        }
        match file.path {
            Some(path) => {
                let stem = file_stem(path.as_str());
                let name = program_name(file.display_name, stem, &path);
                let icon = match file.icon {
                    Some(bytes) => bytes,
                    None => Vec::new(),
                };
                let program = Program { path, name, icon };
                tail.push(program);
                proof {
                    assert(program_views(tail@) =~= held.push(program@));
                    assert(program_views(tail@).reverse() =~= seq![program@] + held.reverse());
                    assert(program_list(before) == program_list(rest@).push(program@));
                    assert(program_list(rest@).push(program@) + held.reverse() =~= program_list(
                        rest@,
                    ) + program_views(tail@).reverse());
                }
            },
            None => {},
        }
    }
    assert(program_list(rest@) =~= Seq::empty());
    while tail.len() > 0
        invariant
            program_list(all) == program_views(programs@) + program_views(tail@).reverse(),
        decreases tail.len(),
    {
        let ghost held = program_views(tail@);
        let ghost done = program_views(programs@);
        let program = tail.pop().unwrap();
        programs.push(program);
        proof {
            assert(program_views(tail@) =~= held.drop_last());
            assert(program_views(programs@) =~= done.push(program@));
            assert(held.reverse() =~= seq![program@] + held.drop_last().reverse());
            assert(done + held.reverse() =~= done.push(program@) + held.drop_last().reverse());
        }
    }
    assert(program_views(tail@).reverse() =~= Seq::empty());
    programs
}

} // verus!
