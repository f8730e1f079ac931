//! What the tray icon shows: its image, the status line for each state the
//! wrapper reports, and the UTF-16 text handed to the Windows shell.

use vstd::prelude::*;
use vstd::string::StringExecFns;
use crate::text::{chars_of, push_char};

verus! {

broadcast use vstd::string::group_string_axioms;

/// State changes the wrapper reports to the tray.
pub enum TrayStatus {
    Starting,
    Running { pid: u32 },
    HotfixRestart,
    Failed { message: String },
    Exiting,
}

/// Commands the tray sends back to the wrapper.
pub enum TrayCommand {
    /// The user clicked "Exit": stop monitoring and leave the game running.
    Exit,
}

/// The UTF-16 code units of one character.
pub open spec fn utf16_units(c: char) -> Seq<u16> {
    let v = c as u32;
    if v < 0x10000 {
        seq![v as u16]
    } else {
        let w = v - 0x10000;
        seq![(0xD800 + w / 0x400) as u16, (0xDC00 + w % 0x400) as u16]
    }
}

/// The UTF-16 encoding of a string.
pub open spec fn utf16_encode(s: Seq<char>) -> Seq<u16>
    decreases s.len(),
{
    if s.len() == 0 {
        Seq::empty()
    } else {
        utf16_encode(s.drop_last()) + utf16_units(s.last())
    }
}

/// `s` as a NUL-terminated UTF-16 string, the form Win32 calls take.
pub fn wide(s: &str) -> (w: Vec<u16>)
    ensures
        w@ == utf16_encode(s@).push(0),
{
    let chars = chars_of(s);
    let mut w: Vec<u16> = Vec::new();
    let mut i: usize = 0;
    while i < chars.len()
        invariant
            i <= chars.len(),
            chars@ == s@,
            w@ == utf16_encode(chars@.take(i as int)),
        decreases chars.len() - i,
    {
        let c = chars[i];
        let v = c as u32;
        proof {
            vstd::utf8::char_is_scalar(c);
        }
        assert(chars@.take(i + 1).drop_last() =~= chars@.take(i as int));
        if v < 0x10000 {
            w.push(v as u16);
        } else {
            let x = v - 0x10000;
            assert(x / 0x400 < 0x400) by (nonlinear_arith)
                requires
                    x <= 0x10FFFF - 0x10000,
            ;
            w.push((0xD800 + x / 0x400) as u16);
            w.push((0xDC00 + x % 0x400) as u16);
        }
        i = i + 1;
        assert(w@ =~= utf16_encode(chars@.take(i as int)));
    }
    assert(chars@.take(chars.len() as int) =~= s@);
    w.push(0);
    w
}

/// The colour of every pixel of the default icon, as RGBA.
pub open spec fn icon_pixel() -> Seq<u8> {
    seq![0x40u8, 0x80u8, 0xFFu8, 0xFFu8]
}

/// A 16x16 solid blue RGBA icon: the pixel bytes, the width and the height.
pub fn make_default_icon_rgba() -> (r: (Vec<u8>, u32, u32))
    ensures
        r.1 == 16,
        r.2 == 16,
        r.0@.len() == 16 * 16 * 4,
        forall|i: int| 0 <= i < r.0@.len() ==> #[trigger] r.0@[i] == icon_pixel()[i % 4],
{
    let w: u32 = 16;
    let h: u32 = 16;
    let pixel: [u8; 4] = [0x40, 0x80, 0xFF, 0xFF];
    let total: usize = (w * h * 4) as usize;
    let mut data: Vec<u8> = Vec::new();
    let mut i: usize = 0;
    while i < total
        invariant
            total == 1024,
            i <= total,
            data@.len() == i,
            pixel@ == icon_pixel(),
            forall|j: int| 0 <= j < i ==> #[trigger] data@[j] == icon_pixel()[j % 4],
        decreases total - i,
    {
        data.push(pixel[i % 4]);
        i = i + 1;
    }
    (data, w, h)
}

/// The decimal digit character for `d < 10`.
pub open spec fn digit_char(d: nat) -> char {
    ('0' as int + d) as char
}

/// The decimal representation of `n`, without leading zeros.
pub open spec fn decimal(n: nat) -> Seq<char>
    decreases n,
{
    if n < 10 {
        seq![digit_char(n)]
    } else {
        decimal(n / 10).push(digit_char(n % 10))
    }
}

/// Appends the decimal representation of `n` to `s`.
fn push_decimal(s: &mut String, n: u32)
    ensures
        final(s)@ == old(s)@ + decimal(n as nat),
    decreases n,
{
    if n >= 10 {
        push_decimal(s, n / 10);
    }
    let d = n % 10;
    let c: char = if d == 0 {
        '0'
    } else if d == 1 {
        '1'
    } else if d == 2 {
        '2'
    } else if d == 3 {
        '3'
    } else if d == 4 {
        '4'
    } else if d == 5 {
        '5'
    } else if d == 6 {
        '6'
    } else if d == 7 {
        '7'
    } else if d == 8 {
        '8'
    } else {
        '9'
    };
    push_char(s, c);
    assert(final(s)@ =~= old(s)@ + decimal(n as nat));
}

/// The status line for a reported state; `None` for `Exiting`, on which the
/// tray closes.
pub open spec fn status_text_spec(status: TrayStatus) -> Option<Seq<char>> {
    match status {
        TrayStatus::Starting => Some("fk_kuro_launcher \u{2014} Starting\u{2026}"@),
        TrayStatus::Running { pid } => Some(
            "fk_kuro_launcher \u{2014} Running (PID "@ + decimal(pid as nat) + ")"@,
        ),
        TrayStatus::HotfixRestart => Some("fk_kuro_launcher \u{2014} Restarting (hotfix)\u{2026}"@),
        TrayStatus::Failed { message } => Some("fk_kuro_launcher \u{2014} Error: "@ + message@),
        TrayStatus::Exiting => None,
    }
}

/// The text the tray's status item and tooltip show for `status`.
pub fn status_text(status: &TrayStatus) -> (text: Option<String>)
    ensures
        text matches Some(t) ==> status_text_spec(*status) == Some(t@),
        text is None <==> status_text_spec(*status) is None,
{
    match status {
        TrayStatus::Starting => Some("fk_kuro_launcher \u{2014} Starting\u{2026}".to_owned()),
        TrayStatus::Running { pid } => {
            let mut text = "fk_kuro_launcher \u{2014} Running (PID ".to_owned();
            push_decimal(&mut text, *pid);
            text.append(")");
            Some(text)
        },
        TrayStatus::HotfixRestart => Some(
            "fk_kuro_launcher \u{2014} Restarting (hotfix)\u{2026}".to_owned(),
        ),
        TrayStatus::Failed { message } => {
            let mut text = "fk_kuro_launcher \u{2014} Error: ".to_owned();
            text.append(message.as_str());
            Some(text)
        },
        TrayStatus::Exiting => None,
    }
}

/// The tray menu's entries.
pub enum MenuChoice {
    OpenLauncherLog,
    OpenDataFolder,
    Exit,
}

/// What the tray loop observed.
pub enum TrayEvent {
    /// The user picked a menu entry.
    Menu(MenuChoice),
    /// The wrapper reported a state.
    Status(TrayStatus),
    /// The wrapper went away without reporting `Exiting`.
    WorkerGone,
}

/// What the tray loop does next.
pub enum TrayAction {
    /// Open the launcher log with the system's default handler.
    OpenLauncherLog,
    /// Open the wrapper's data folder.
    OpenDataFolder,
    /// Tell the wrapper to stop watching, then close the tray.
    RequestExitAndClose,
    /// Show this text in the status item and the tooltip.
    ShowText(String),
    /// Close the tray.
    Close,
}

/// The tray loop's response to `event`.
pub fn tray_step(event: TrayEvent) -> (action: TrayAction)
    ensures
        match event {
            TrayEvent::Menu(MenuChoice::OpenLauncherLog) => action is OpenLauncherLog,
            TrayEvent::Menu(MenuChoice::OpenDataFolder) => action is OpenDataFolder,
            TrayEvent::Menu(MenuChoice::Exit) => action is RequestExitAndClose,
            TrayEvent::Status(status) => match status_text_spec(status) {
                Some(t) => action matches TrayAction::ShowText(text) && text@ == t,
                None => action is Close,
            },
            TrayEvent::WorkerGone => action is Close,
        },
{
    match event {
        TrayEvent::Menu(MenuChoice::OpenLauncherLog) => TrayAction::OpenLauncherLog,
        TrayEvent::Menu(MenuChoice::OpenDataFolder) => TrayAction::OpenDataFolder,
        TrayEvent::Menu(MenuChoice::Exit) => TrayAction::RequestExitAndClose,
        TrayEvent::Status(status) => match status_text(&status) {
            Some(text) => TrayAction::ShowText(text),
            None => TrayAction::Close,
        },
        TrayEvent::WorkerGone => TrayAction::Close,
    }
}

} // verus!
