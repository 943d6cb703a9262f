//! Decisions of the foreground trackers: which events a foreground change
//! produces, how window properties become titles and names, and when a
//! window counts as fullscreen. The platform calls that gather the inputs
//! live outside the library.
use vstd::prelude::*;
use vstd::string::*;
use vstd::utf8::{decode_utf8, valid_utf8};
use crate::types::{ProcessInfo, TrackerEvent, WindowHandle};

verus! {

/// Name of a result of `String::from_utf8_lossy`.
pub uninterp spec fn utf8_lossy(bytes: Seq<u8>) -> Seq<char>;

/// Name of a result of `String::from_utf16_lossy`.
pub uninterp spec fn utf16_lossy(units: Seq<u16>) -> Seq<char>;

/// `String::from_utf8`: the decoded text when `bytes` are valid UTF-8.
#[verifier::external_body]
fn string_from_utf8(bytes: Vec<u8>) -> (r: Option<String>)
    ensures
        r is Some <==> valid_utf8(bytes@),
        r matches Some(s) ==> s@ == decode_utf8(bytes@),
{
    String::from_utf8(bytes).ok()
}

/// `String::from_utf8_lossy`: the text with each invalid sequence replaced
/// by U+FFFD; identical to the decoding when the bytes are valid UTF-8.
#[verifier::external_body]
fn string_from_utf8_lossy(bytes: &[u8]) -> (r: String)
    ensures
        r@ == utf8_lossy(bytes@),
        valid_utf8(bytes@) ==> r@ == decode_utf8(bytes@),
{
    String::from_utf8_lossy(bytes).to_string()
}

/// `String::from_utf16_lossy`: the text with each unpaired surrogate
/// replaced by U+FFFD. A NUL character comes only from a 0 code unit
/// (surrogate pairs decode above U+FFFF, replacements are U+FFFD).
#[verifier::external_body]
fn string_from_utf16_lossy(units: &[u16]) -> (r: String)
    ensures
        r@ == utf16_lossy(units@),
        !units@.contains(0u16) ==> !r@.contains('\0'),
{
    String::from_utf16_lossy(units)
}

/// `"unknown"`, the name used when a process's name cannot be read.
pub open spec fn unknown_name() -> Seq<char> {
    seq!['u', 'n', 'k', 'n', 'o', 'w', 'n']
}

/// The process information of a new foreground window: a missing
/// executable name becomes `"unknown"`, a missing path the empty string.
pub fn foreground_info(
    pid: u32,
    exe_name: Option<String>,
    exe_path: Option<String>,
    window_title: String,
    window: usize,
) -> (r: ProcessInfo)
    ensures
        r.pid == pid,
        r.exe_name@ == (match exe_name {
            Some(n) => n@,
            None => unknown_name(),
        }),
        r.exe_path@ == (match exe_path {
            Some(p) => p@,
            None => Seq::<char>::empty(),
        }),
        r.window_title == window_title,
        r.window_handle == Some(WindowHandle(window)),
{
    let exe_name = match exe_name {
        Some(n) => n,
        None => {
            let mut s = String::new();
            crate::text::push_char(&mut s, 'u');
            crate::text::push_char(&mut s, 'n');
            crate::text::push_char(&mut s, 'k');
            crate::text::push_char(&mut s, 'n');
            crate::text::push_char(&mut s, 'o');
            crate::text::push_char(&mut s, 'w');
            crate::text::push_char(&mut s, 'n');
            assert(s@ =~= unknown_name());
            s
        },
    };
    let exe_path = match exe_path {
        Some(p) => p,
        None => String::new(),
    };
    ProcessInfo { pid, exe_name, exe_path, window_title, window_handle: Some(WindowHandle(window)) }
}

/// A window or process id as X11 reports it: absent or 0 means none.
pub fn present_id(v: Option<u32>) -> (r: Option<u32>)
    ensures
        r == (match v {
            Some(x) => if x != 0 { Some(x) } else { None },
            None => None,
        }),
{
    match v {
        Some(x) => if x != 0 { Some(x) } else { None },
        None => None,
    }
}

/// Events of a foreground change on X11: the change itself, then entering
/// fullscreen, or leaving it when the previous window was fullscreen.
pub open spec fn spec_x11_foreground_events(info: ProcessInfo, is_fs: bool, was_prev_fs: bool) -> Seq<TrackerEvent> {
    seq![TrackerEvent::WindowChanged(info)] + if is_fs {
        seq![TrackerEvent::FullscreenEntered(info)]
    } else if was_prev_fs {
        seq![TrackerEvent::FullscreenExited]
    } else {
        Seq::empty()
    }
}

/// The events to send when X11 reports a new active window `info`, whose
/// fullscreen state is `is_fs`, the previous one's being `was_prev_fs`.
pub fn x11_foreground_events(info: ProcessInfo, is_fs: bool, was_prev_fs: bool) -> (r: Vec<TrackerEvent>)
    ensures
        r@ == spec_x11_foreground_events(info, is_fs, was_prev_fs),
{
    let mut r: Vec<TrackerEvent> = Vec::new();
    r.push(TrackerEvent::WindowChanged(info.clone()));
    if is_fs {
        r.push(TrackerEvent::FullscreenEntered(info));
    } else if was_prev_fs {
        r.push(TrackerEvent::FullscreenExited);
    }
    assert(r@ =~= spec_x11_foreground_events(info, is_fs, was_prev_fs));
    r
}

/// Events of a foreground change on Windows and macOS: entering fullscreen
/// first when the window is fullscreen, then the change itself.
pub open spec fn spec_foreground_events(info: ProcessInfo, is_fs: bool) -> Seq<TrackerEvent> {
    if is_fs {
        seq![TrackerEvent::FullscreenEntered(info), TrackerEvent::WindowChanged(info)]
    } else {
        seq![TrackerEvent::WindowChanged(info)]
    }
}

/// The events to send when a new foreground window `info` is reported by
/// a Windows event hook or a macOS workspace notification.
pub fn foreground_events(info: ProcessInfo, is_fs: bool) -> (r: Vec<TrackerEvent>)
    ensures
        r@ == spec_foreground_events(info, is_fs),
{
    let mut r: Vec<TrackerEvent> = Vec::new();
    if is_fs {
        r.push(TrackerEvent::FullscreenEntered(info.clone()));
    }
    r.push(TrackerEvent::WindowChanged(info));
    assert(r@ =~= spec_foreground_events(info, is_fs));
    r
}

/// Whether a window's `_NET_WM_STATE` atoms include the fullscreen atom.
pub fn state_has_atom(values: &Vec<u32>, atom: u32) -> (r: bool)
    ensures
        r == values@.contains(atom),
{
    let mut i: usize = 0;
    while i < values.len()
        invariant
            i <= values@.len(),
            forall|j: int| 0 <= j < i ==> values@[j] != atom,
        decreases values@.len() - i,
    {
        if values[i] == atom {
            assert(values@[i as int] == atom);
            return true;
        }
        i = i + 1;
    }
    false
}

/// `WS_CAPTION`: title bar and border.
pub const WS_CAPTION: u32 = 0x00C0_0000;
/// `WS_THICKFRAME`: sizing border.
pub const WS_THICKFRAME: u32 = 0x0004_0000;

/// The fullscreen heuristic for a Win32 window: it covers its monitor
/// exactly, has a style, and does not have both a caption and a sizing
/// frame (that would be a maximized ordinary window).
pub open spec fn spec_covers_monitor_fullscreen(window: (i32, i32, i32, i32), monitor: (i32, i32, i32, i32), style: isize) -> bool {
    let st = style as u32;
    &&& window == monitor
    &&& style != 0
    &&& !((st & WS_CAPTION) == WS_CAPTION && (st & WS_THICKFRAME) == WS_THICKFRAME)
}

/// Decides the fullscreen heuristic from the window rectangle, the
/// monitor rectangle (left, top, right, bottom) and the window style.
pub fn covers_monitor_fullscreen(window: (i32, i32, i32, i32), monitor: (i32, i32, i32, i32), style: isize) -> (r: bool)
    ensures
        r == spec_covers_monitor_fullscreen(window, monitor, style),
{
    if window.0 != monitor.0 || window.1 != monitor.1 || window.2 != monitor.2 || window.3 != monitor.3 {
        return false;
    }
    if style == 0 {
        return false;
    }
    let st = style as u32;
    let has_caption = (st & WS_CAPTION) == WS_CAPTION;
    let has_thickframe = (st & WS_THICKFRAME) == WS_THICKFRAME;
    !(has_caption && has_thickframe)
}

/// ASCII lower case of `c`; other characters are unchanged.
pub open spec fn ascii_lower(c: char) -> char {
    if 'A' <= c && c <= 'Z' { ((c as u32) + 32) as char } else { c }
}

/// `"loginwindow"`, the process that shows the macOS lock screen.
pub open spec fn loginwindow_name() -> Seq<char> {
    seq!['l', 'o', 'g', 'i', 'n', 'w', 'i', 'n', 'd', 'o', 'w']
}

/// `name` equals `"loginwindow"` ignoring ASCII case.
pub open spec fn spec_is_loginwindow(name: Seq<char>) -> bool {
    &&& name.len() == loginwindow_name().len()
    &&& forall|i: int| 0 <= i < name.len() ==> ascii_lower(#[trigger] name[i]) == loginwindow_name()[i]
}

fn ascii_lower_eq(c: char, t: char) -> (r: bool)
    ensures
        r == (ascii_lower(c) == t),
{
    if 'A' <= c && c <= 'Z' {
        (c as u32) + 32 == t as u32
    } else {
        c == t
    }
}

/// Whether a process name is `loginwindow` (ASCII case ignored).
pub fn is_loginwindow(name: &str) -> (r: bool)
    ensures
        r == spec_is_loginwindow(name@),
{
    let target: [char; 11] = ['l', 'o', 'g', 'i', 'n', 'w', 'i', 'n', 'd', 'o', 'w'];
    assert(target@ =~= loginwindow_name());
    let n = name.unicode_len();
    if n != 11 {
        return false;
    }
    let mut i: usize = 0;
    while i < 11
        invariant
            n == name@.len(),
            n == 11,
            target@ == loginwindow_name(),
            i <= 11,
            forall|j: int| 0 <= j < i ==> ascii_lower(#[trigger] name@[j]) == loginwindow_name()[j],
        decreases 11 - i,
    {
        if !ascii_lower_eq(name.get_char(i), target[i]) {
            return false;
        }
        i = i + 1;
    }
    true
}

/// The lock-screen rule on macOS: activating `loginwindow` starts idle
/// time (once) and swallows the activation; activating anything else
/// after it ends idle time. Returns the new "lock screen shown" state, the
/// event to send, and whether the activation is swallowed.
pub open spec fn spec_handle_loginwindow(active: bool, is_login: bool) -> (bool, Option<TrackerEvent>, bool) {
    if is_login {
        (true, if !active { Some(TrackerEvent::IdleStarted) } else { None }, true)
    } else {
        (false, if active { Some(TrackerEvent::IdleEnded) } else { None }, false)
    }
}

/// Applies the lock-screen rule to the activation of `exe_name`, with
/// `active` telling whether the lock screen was the last activation.
pub fn handle_loginwindow(active: bool, exe_name: &str) -> (r: (bool, Option<TrackerEvent>, bool))
    ensures
        r == spec_handle_loginwindow(active, spec_is_loginwindow(exe_name@)),
{
    if is_loginwindow(exe_name) {
        (true, if !active { Some(TrackerEvent::IdleStarted) } else { None }, true)
    } else {
        (false, if active { Some(TrackerEvent::IdleEnded) } else { None }, false)
    }
}

/// Law: the lock-screen rule never reports idle twice in a row: it reports
/// `IdleStarted` only when the lock screen was not shown, and `IdleEnded`
/// only when it was, and its state afterwards is whether the activated
/// process is the lock screen.
pub proof fn lemma_loginwindow_alternates(active: bool, is_login: bool)
    ensures
        ({
            let (now_active, ev, swallowed) = spec_handle_loginwindow(active, is_login);
            &&& now_active == is_login
            &&& swallowed == is_login
            &&& (ev matches Some(TrackerEvent::IdleStarted)) <==> (!active && now_active)
            &&& (ev matches Some(TrackerEvent::IdleEnded)) <==> (active && !now_active)
        }),
{
}

/// What a macOS application activation sends: first the lock-screen
/// rule's idle event, if any; then, unless the rule swallowed the
/// activation, the foreground events (`FullscreenEntered` when the window
/// is fullscreen, then `WindowChanged`). Also the new "lock screen shown"
/// state.
pub open spec fn spec_activation_events(active: bool, info: ProcessInfo, is_fs: bool) -> (bool, Seq<TrackerEvent>) {
    let (now_active, ev, swallowed) = spec_handle_loginwindow(active, spec_is_loginwindow(info.exe_name@));
    let first = match ev {
        Some(e) => seq![e],
        None => Seq::<TrackerEvent>::empty(),
    };
    (now_active, if swallowed { first } else { first + spec_foreground_events(info, is_fs) })
}

/// The events of a macOS application activation of `info` (fullscreen
/// when `is_fs`), with `active` telling whether the lock screen was the
/// last activation.
pub fn activation_events(active: bool, info: ProcessInfo, is_fs: bool) -> (r: (bool, Vec<TrackerEvent>))
    ensures
        (r.0, r.1@) == spec_activation_events(active, info, is_fs),
{
    let (now_active, ev, swallowed) = handle_loginwindow(active, info.exe_name.as_str());
    let mut out: Vec<TrackerEvent> = Vec::new();
    match ev {
        Some(e) => out.push(e),
        None => {},
    }
    if !swallowed {
        let mut rest = foreground_events(info, is_fs);
        out.append(&mut rest);
    }
    assert(out@ =~= spec_activation_events(active, info, is_fs).1);
    (now_active, out)
}

/// The title of an X11 window from its `_NET_WM_NAME` (UTF-8) and
/// `WM_NAME` property values (`None` when a property could not be read):
/// `_NET_WM_NAME` when it is non-empty valid UTF-8, else a non-empty
/// `WM_NAME` decoded lossily, else the empty string.
pub open spec fn spec_window_title(net_wm_name: Option<Seq<u8>>, wm_name: Option<Seq<u8>>) -> Seq<char> {
    if net_wm_name matches Some(n) && n.len() > 0 && valid_utf8(n) {
        decode_utf8(net_wm_name.unwrap())
    } else if wm_name matches Some(w) && w.len() > 0 {
        utf8_lossy(wm_name.unwrap())
    } else {
        Seq::empty()
    }
}

/// Chooses the window title from the window's name properties.
pub fn window_title(net_wm_name: Option<Vec<u8>>, wm_name: Option<Vec<u8>>) -> (r: String)
    ensures
        r@ == spec_window_title(
            match net_wm_name { Some(v) => Some(v@), None => None },
            match wm_name { Some(v) => Some(v@), None => None },
        ),
{
    if let Some(v) = net_wm_name {
        if v.len() > 0 {
            if let Some(s) = string_from_utf8(v) {
                return s;
            }
        }
    }
    if let Some(v) = wm_name {
        if v.len() > 0 {
            return string_from_utf8_lossy(v.as_slice());
        }
    }
    String::new()
}

/// The characters that `char::is_whitespace` accepts (Unicode
/// `White_Space`).
pub open spec fn is_white_space(c: char) -> bool {
    let v = c as u32;
    ||| 0x09 <= v <= 0x0d
    ||| v == 0x20
    ||| v == 0x85
    ||| v == 0xa0
    ||| v == 0x1680
    ||| 0x2000 <= v <= 0x200a
    ||| v == 0x2028
    ||| v == 0x2029
    ||| v == 0x202f
    ||| v == 0x205f
    ||| v == 0x3000
}

fn white_space(c: char) -> (r: bool)
    ensures
        r == is_white_space(c),
{
    let v = c as u32;
    (0x09 <= v && v <= 0x0d) || v == 0x20 || v == 0x85 || v == 0xa0 || v == 0x1680
        || (0x2000 <= v && v <= 0x200a) || v == 0x2028 || v == 0x2029 || v == 0x202f
        || v == 0x205f || v == 0x3000
}

/// `t` is `s` without leading and trailing white space (`str::trim`).
pub open spec fn is_trim_of(s: Seq<char>, t: Seq<char>) -> bool {
    exists|a: int, b: int|
        0 <= a <= b <= s.len()
        && t == s.subrange(a, b)
        && (forall|i: int| 0 <= i < a ==> is_white_space(#[trigger] s[i]))
        && (forall|i: int| b <= i < s.len() ==> is_white_space(#[trigger] s[i]))
        && (a < b ==> !is_white_space(s[a]) && !is_white_space(s[b - 1]))
}

/// The process name from the contents of `/proc/<pid>/comm`: the text with
/// surrounding white space (the trailing newline) removed.
pub fn exe_name_from_comm(comm: &str) -> (r: String)
    ensures
        is_trim_of(comm@, r@),
{
    let n = comm.unicode_len();
    let mut a: usize = 0;
    while a < n && white_space(comm.get_char(a))
        invariant
            n == comm@.len(),
            a <= n,
            forall|i: int| 0 <= i < a ==> is_white_space(#[trigger] comm@[i]),
        decreases n - a,
    {
        a = a + 1;
    }
    let mut b: usize = n;
    while b > a && white_space(comm.get_char(b - 1))
        invariant
            n == comm@.len(),
            a <= b <= n,
            forall|i: int| b <= i < n ==> is_white_space(#[trigger] comm@[i]),
            a < n ==> !is_white_space(comm@[a as int]),
        decreases b - a,
    {
        b = b - 1;
    }
    let t = comm.substring_char(a, b);
    let r = t.to_owned();
    assert(is_trim_of(comm@, r@)) by {
        assert(r@ == comm@.subrange(a as int, b as int));
    }
    r
}

/// The number of code units before the first NUL among the first `size`
/// units of `buf` (all `size` when there is none).
pub open spec fn nul_terminated_len(buf: Seq<u16>, size: int) -> int
    decreases size,
{
    if size <= 0 {
        0
    } else if nul_terminated_len(buf, size - 1) < size - 1 {
        nul_terminated_len(buf, size - 1)
    } else if buf[size - 1] == 0 {
        size - 1
    } else {
        size
    }
}

/// The executable path that `QueryFullProcessImageNameW` wrote into `buf`
/// (`size` code units), cut at the first NUL and decoded lossily.
pub fn exe_full_path_from_utf16(buf: &Vec<u16>, size: usize) -> (r: String)
    requires
        size <= buf@.len(),
    ensures
        r@ == utf16_lossy(buf@.subrange(0, nul_terminated_len(buf@, size as int))),
        !r@.contains('\0'),
{
    let mut i: usize = 0;
    while i < size && buf[i] != 0
        invariant
            size <= buf@.len(),
            i <= size,
            nul_terminated_len(buf@, i as int) == i,
            forall|j: int| 0 <= j < i ==> buf@[j] != 0,
        decreases size - i,
    {
        i = i + 1;
    }
    proof {
        lemma_nul_len_stable(buf@, i as int, size as int);
    }
    let mut units: Vec<u16> = Vec::new();
    let mut k: usize = 0;
    while k < i
        invariant
            i <= size <= buf@.len(),
            k <= i,
            units@ == buf@.subrange(0, k as int),
            forall|j: int| 0 <= j < i ==> buf@[j] != 0,
        decreases i - k,
    {
        units.push(buf[k]);
        k = k + 1;
        assert(units@ =~= buf@.subrange(0, k as int));
    }
    assert(!units@.contains(0u16)) by {
        assert forall|j: int| 0 <= j < units@.len() implies units@[j] != 0u16 by {
            assert(units@[j] == buf@[j]);
        }
    }
    string_from_utf16_lossy(units.as_slice())
}

proof fn lemma_nul_len_stable(buf: Seq<u16>, i: int, size: int)
    requires
        0 <= i <= size <= buf.len(),
        nul_terminated_len(buf, i) == i,
        i < size ==> buf[i] == 0,
    ensures
        nul_terminated_len(buf, size) == i,
    decreases size - i,
{
    if i < size {
        lemma_nul_len_grow(buf, i, size);
    }
}

proof fn lemma_nul_len_grow(buf: Seq<u16>, i: int, size: int)
    requires
        0 <= i < size <= buf.len(),
        nul_terminated_len(buf, i) == i,
        buf[i] == 0,
    ensures
        nul_terminated_len(buf, size) == i,
    decreases size - i,
{
    if size == i + 1 {
    } else {
        lemma_nul_len_grow(buf, i, size - 1);
    }
}

/// The name shown for an application that has no localized name:
/// `"pid:"` followed by its process id.
pub open spec fn spec_pid_name(pid: u32) -> Seq<char> {
    seq!['p', 'i', 'd', ':'] + crate::text::decimal(pid as nat)
}

/// `"pid:<pid>"`, the name of a macOS application without a localized
/// name.
pub fn pid_name(pid: u32) -> (r: String)
    ensures
        r@ == spec_pid_name(pid),
{
    let mut s = String::new();
    crate::text::push_char(&mut s, 'p');
    crate::text::push_char(&mut s, 'i');
    crate::text::push_char(&mut s, 'd');
    crate::text::push_char(&mut s, ':');
    crate::text::push_decimal(&mut s, pid as u64);
    assert(s@ =~= spec_pid_name(pid));
    s
}

/// `piece` occurs in `text` as a contiguous run.
pub open spec fn is_piece_of(piece: Seq<char>, text: Seq<char>) -> bool {
    exists|i: int| 0 <= i && i + piece.len() <= text.len() && #[trigger] text.subrange(i, i + piece.len()) == piece
}

/// A path that no platform reads a prefix (drive, UNC, verbatim, device)
/// into: no `\`, no `:`, and not starting with `//`. Its components are
/// the `/`-separated pieces everywhere.
pub open spec fn plain_slash_path(p: Seq<char>) -> bool {
    &&& !p.contains('\\')
    &&& !p.contains(':')
    &&& !(p.len() >= 2 && p[0] == '/' && p[1] == '/')
}

/// `p` without its trailing separators and trailing `.` components.
pub open spec fn strip_path_end(p: Seq<char>) -> Seq<char>
    decreases p.len(),
{
    if p.len() == 0 {
        p
    } else if p.last() == '/' {
        strip_path_end(p.drop_last())
    } else if p.last() == '.' && (p.len() == 1 || p[p.len() - 2] == '/') {
        strip_path_end(p.drop_last())
    } else {
        p
    }
}

/// The characters after the last `/` of `q`.
pub open spec fn last_segment(q: Seq<char>) -> Seq<char>
    decreases q.len(),
{
    if q.len() == 0 || q.last() == '/' {
        Seq::empty()
    } else {
        last_segment(q.drop_last()).push(q.last())
    }
}

/// The file name of a plain `/`-separated path: its last component once
/// trailing separators and `.` components are dropped; none when there is
/// none (empty path, root, only `.`) or it is `..`.
pub open spec fn spec_file_name(p: Seq<char>) -> Option<Seq<char>> {
    let seg = last_segment(strip_path_end(p));
    if seg.len() == 0 || seg == seq!['.', '.'] { None } else { Some(seg) }
}

/// std's `Path::file_name` of `path`, as text (`to_string_lossy` of a
/// piece of valid text is that piece). For a plain `/`-separated path it is
/// the last normal component as std documents it (repeated separators and
/// `.` components normalized away, none for a root, an empty path or a
/// final `..`); for other paths the separators and prefixes depend on the
/// platform, and only that it is a non-empty run of the path is stated.
#[verifier::external_body]
fn path_file_name(path: &str) -> (r: Option<String>)
    ensures
        r matches Some(n) ==> n@.len() > 0 && is_piece_of(n@, path@),
        plain_slash_path(path@) ==> (match r {
            Some(n) => Some(n@),
            None => None,
        }) == spec_file_name(path@),
{
    match std::path::Path::new(path).file_name() {
        Some(n) => Some(n.to_string_lossy().into_owned()),
        None => None,
    }
}

/// The executable name from the executable's full path: the path's file
/// name, or the whole path when it has none.
pub fn exe_name_from_path(full_path: String) -> (r: String)
    ensures
        plain_slash_path(full_path@) ==> r@ == (match spec_file_name(full_path@) {
            Some(n) => n,
            None => full_path@,
        }),
        r@ == full_path@ || (r@.len() > 0 && is_piece_of(r@, full_path@)),
{
    match path_file_name(full_path.as_str()) {
        Some(n) => n,
        None => full_path,
    }
}

} // verus!
