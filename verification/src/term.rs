//! The in-memory terminal emulator.
//!
//! Parsing of the byte stream and maintenance of the cell grid are done by
//! the `alacritty_terminal` crate; this module drives it behind a small
//! trusted boundary. The emulator's visible grid, its outgoing responses,
//! the distinguished signals its byte stream fires and its
//! alternate-screen state are, for a fixed starting size, functions of the
//! events fed to it (bytes and resizes); those functions are given names
//! ([`emu_run`], [`emu_responses`], [`emu_signals`], [`emu_alt`]), and
//! everything the library computes from them is verified against those
//! names.

use vstd::prelude::*;
use crate::colors::{resolve_spec, Color, Colors, Rgb};
use crate::screen::{Cell, Screen};
use alacritty_terminal::term::cell::Flags;
use alacritty_terminal::term::test::TermSize;
use alacritty_terminal::term::Config;
use alacritty_terminal::vte::ansi::Attr;
use alacritty_terminal::vte::ansi::CharsetIndex;
use alacritty_terminal::vte::ansi::ClearMode;
use alacritty_terminal::vte::ansi::Color as VteColor;
use alacritty_terminal::vte::ansi::CursorShape;
use alacritty_terminal::vte::ansi::CursorStyle;
use alacritty_terminal::vte::ansi::Handler;
use alacritty_terminal::vte::ansi::Hyperlink;
use alacritty_terminal::vte::ansi::KeyboardModes;
use alacritty_terminal::vte::ansi::KeyboardModesApplyBehavior;
use alacritty_terminal::vte::ansi::LineClearMode;
use alacritty_terminal::vte::ansi::Mode as AnsiMode;
use alacritty_terminal::vte::ansi::NamedPrivateMode;
use alacritty_terminal::vte::ansi::PrivateMode;
use alacritty_terminal::vte::ansi::Processor;
use alacritty_terminal::vte::ansi::Rgb as AnsiRgb;
use alacritty_terminal::vte::ansi::StandardCharset;
use alacritty_terminal::vte::ansi::TabulationClearMode;
use alacritty_terminal::vte::ansi::Timeout;

verus! {

/// A distinguished signal the byte stream can carry: one of the
/// destructive transitions a caller may want to observe the screen just
/// before.
#[derive(Clone, Copy, Debug, PartialEq, Eq, Structural)]
pub enum AnsiSignal {
    /// Clear the terminal screen (the erase-in-display action).
    ClearScreen,
    /// Enable or disable the alternate terminal screen buffer (DEC private
    /// mode 1049).
    AlternateScreenBuffer {
        /// Whether the alternate buffer is being entered or left.
        enable: bool,
    },
}

/// A sink for responses sent by the terminal emulator in reply to status
/// queries (device status, device attributes, mode and keyboard reports).
/// Implement this to forward such responses, for example to the
/// pseudo-terminal that asked.
pub trait PtyWriter {
    /// Accept `text`, one response.
    fn write(&mut self, text: String);
}

/// A [`PtyWriter`] that ignores all responses.
pub struct VoidPtyWriter;

impl PtyWriter for VoidPtyWriter {
    fn write(&mut self, text: String) {
        let _ = text;
    }
}

/// One cell of the emulator's visible grid, as plain values: its character,
/// its color tokens, and its style flags.
#[derive(Clone, Copy, Debug, PartialEq, Eq, Structural)]
pub struct TermCell {
    pub c: char,
    pub fg: Color,
    pub bg: Color,
    pub bold: bool,
    pub italic: bool,
    pub underline: bool,
    pub strikethrough: bool,
}

/// One event fed to the emulator: a byte of terminal data, or a resize.
#[derive(Clone, Copy, Debug, PartialEq, Eq, Structural)]
pub enum TermEvent {
    /// One byte of ANSI-escaped terminal data.
    Byte(u8),
    /// A change of the grid size to `lines` by `columns`.
    Resize(u16, u16),
}

#[verifier::external_type_specification]
#[verifier::external_body]
pub struct ExEvent(alacritty_terminal::event::Event);

/// The listener handed to the wrapped terminal: it collects the text of
/// every `PtyWrite` event — the terminal's responses to status queries —
/// into a buffer shared with [`Emu`], and ignores every other event (as
/// the discarding listener would).
#[verifier::external_body]
struct RespListener {
    sink: std::rc::Rc<std::cell::RefCell<Vec<String>>>,
}

impl alacritty_terminal::event::EventListener for RespListener {
    /// Relies on `alacritty_terminal::event::Event`: the `PtyWrite`
    /// variant carries one response text; the body moves it into the
    /// shared buffer and drops the other variants.
    #[verifier::external_body]
    fn send_event(&self, event: alacritty_terminal::event::Event) {
        if let alacritty_terminal::event::Event::PtyWrite(text) = event {
            self.sink.borrow_mut().push(text);
        }
    }
}

/// The emulator core: the terminal state machine of `alacritty_terminal`,
/// its byte parser, and the buffers its responses and distinguished
/// signals arrive in, held behind the trusted boundary. The struct is
/// opaque to the verifier; everything it guarantees is stated on the
/// wrapper functions below, over the names [`emu_lines`], [`emu_cols`],
/// [`emu_events`], [`emu_run`], [`emu_responses`], [`emu_signals`] and
/// [`emu_alt`]. The parser is held in an `Option` only so that the byte
/// wrapper can lend the rest of the struct to it as the action handler; it
/// is present between calls.
#[verifier::external_body]
struct Emu {
    term: alacritty_terminal::Term<RespListener>,
    processor: Option<Processor<alacritty_terminal::vte::ansi::StdSyncHandler>>,
    responses: std::rc::Rc<std::cell::RefCell<Vec<String>>>,
    signals: std::rc::Rc<std::cell::RefCell<Vec<AnsiSignal>>>,
}

#[verifier::external_type_specification]
#[verifier::external_body]
pub struct ExCursorStyle(CursorStyle);

#[verifier::external_type_specification]
#[verifier::external_body]
pub struct ExCursorShape(CursorShape);

#[verifier::external_type_specification]
#[verifier::external_body]
pub struct ExLineClearMode(LineClearMode);

#[verifier::external_type_specification]
#[verifier::external_body]
pub struct ExClearMode(ClearMode);

#[verifier::external_type_specification]
#[verifier::external_body]
pub struct ExTabulationClearMode(TabulationClearMode);

#[verifier::external_type_specification]
#[verifier::external_body]
pub struct ExAttr(Attr);

#[verifier::external_type_specification]
#[verifier::external_body]
pub struct ExAnsiMode(AnsiMode);

#[verifier::external_type_specification]
#[verifier::external_body]
pub struct ExPrivateMode(PrivateMode);

#[verifier::external_type_specification]
#[verifier::external_body]
pub struct ExCharsetIndex(CharsetIndex);

#[verifier::external_type_specification]
#[verifier::external_body]
pub struct ExStandardCharset(StandardCharset);

#[verifier::external_type_specification]
#[verifier::external_body]
pub struct ExAnsiRgb(AnsiRgb);

#[verifier::external_type_specification]
#[verifier::external_body]
pub struct ExHyperlink(Hyperlink);

#[verifier::external_type_specification]
#[verifier::external_body]
pub struct ExKeyboardModes(KeyboardModes);

#[verifier::external_type_specification]
#[verifier::external_body]
pub struct ExKeyboardModesApplyBehavior(KeyboardModesApplyBehavior);

/// The byte parser drives the wrapped terminal through this impl. Every
/// action is forwarded unchanged to the `Handler` impl of
/// `alacritty_terminal::Term` — each method below forwards the action of
/// the same name — except that the three distinguished actions (a screen
/// clear, and entering or leaving the alternate screen buffer, DEC private
/// mode 1049) are recorded in the shared signal buffer just before they
/// are forwarded, so a caller can observe the screen as it stood before
/// the action took effect.
impl Handler for Emu {
    #[verifier::external_body]
    fn input(&mut self, c: char) {
        self.term.input(c)
    }

    #[verifier::external_body]
    fn decaln(&mut self) {
        self.term.decaln()
    }

    #[verifier::external_body]
    fn goto(&mut self, line: i32, col: usize) {
        self.term.goto(line, col)
    }

    #[verifier::external_body]
    fn goto_line(&mut self, line: i32) {
        self.term.goto_line(line)
    }

    #[verifier::external_body]
    fn goto_col(&mut self, col: usize) {
        self.term.goto_col(col)
    }

    #[verifier::external_body]
    fn insert_blank(&mut self, count: usize) {
        self.term.insert_blank(count)
    }

    #[verifier::external_body]
    fn move_up(&mut self, rows: usize) {
        self.term.move_up(rows)
    }

    #[verifier::external_body]
    fn move_down(&mut self, rows: usize) {
        self.term.move_down(rows)
    }

    #[verifier::external_body]
    fn move_forward(&mut self, cols: usize) {
        self.term.move_forward(cols)
    }

    #[verifier::external_body]
    fn move_backward(&mut self, cols: usize) {
        self.term.move_backward(cols)
    }

    #[verifier::external_body]
    fn identify_terminal(&mut self, intermediate: Option<char>) {
        self.term.identify_terminal(intermediate)
    }

    #[verifier::external_body]
    fn report_keyboard_mode(&mut self) {
        self.term.report_keyboard_mode()
    }

    #[verifier::external_body]
    fn push_keyboard_mode(&mut self, mode: KeyboardModes) {
        self.term.push_keyboard_mode(mode)
    }

    #[verifier::external_body]
    fn pop_keyboard_modes(&mut self, to_pop: u16) {
        self.term.pop_keyboard_modes(to_pop)
    }

    #[verifier::external_body]
    fn set_keyboard_mode(&mut self, mode: KeyboardModes, apply: KeyboardModesApplyBehavior) {
        self.term.set_keyboard_mode(mode, apply)
    }

    #[verifier::external_body]
    fn device_status(&mut self, arg: usize) {
        self.term.device_status(arg)
    }

    #[verifier::external_body]
    fn move_down_and_cr(&mut self, rows: usize) {
        self.term.move_down_and_cr(rows)
    }

    #[verifier::external_body]
    fn move_up_and_cr(&mut self, rows: usize) {
        self.term.move_up_and_cr(rows)
    }

    #[verifier::external_body]
    fn put_tab(&mut self, count: u16) {
        self.term.put_tab(count)
    }

    #[verifier::external_body]
    fn backspace(&mut self) {
        self.term.backspace()
    }

    #[verifier::external_body]
    fn carriage_return(&mut self) {
        self.term.carriage_return()
    }

    #[verifier::external_body]
    fn linefeed(&mut self) {
        self.term.linefeed()
    }

    #[verifier::external_body]
    fn bell(&mut self) {
        self.term.bell()
    }

    #[verifier::external_body]
    fn substitute(&mut self) {
        self.term.substitute()
    }

    #[verifier::external_body]
    fn newline(&mut self) {
        self.term.newline()
    }

    #[verifier::external_body]
    fn set_horizontal_tabstop(&mut self) {
        self.term.set_horizontal_tabstop()
    }

    #[verifier::external_body]
    fn scroll_up(&mut self, rows: usize) {
        self.term.scroll_up(rows)
    }

    #[verifier::external_body]
    fn scroll_down(&mut self, rows: usize) {
        self.term.scroll_down(rows)
    }

    #[verifier::external_body]
    fn insert_blank_lines(&mut self, rows: usize) {
        self.term.insert_blank_lines(rows)
    }

    #[verifier::external_body]
    fn delete_lines(&mut self, rows: usize) {
        self.term.delete_lines(rows)
    }

    #[verifier::external_body]
    fn erase_chars(&mut self, count: usize) {
        self.term.erase_chars(count)
    }

    #[verifier::external_body]
    fn delete_chars(&mut self, count: usize) {
        self.term.delete_chars(count)
    }

    #[verifier::external_body]
    fn move_backward_tabs(&mut self, count: u16) {
        self.term.move_backward_tabs(count)
    }

    #[verifier::external_body]
    fn move_forward_tabs(&mut self, count: u16) {
        self.term.move_forward_tabs(count)
    }

    #[verifier::external_body]
    fn save_cursor_position(&mut self) {
        self.term.save_cursor_position()
    }

    #[verifier::external_body]
    fn restore_cursor_position(&mut self) {
        self.term.restore_cursor_position()
    }

    #[verifier::external_body]
    fn clear_line(&mut self, mode: LineClearMode) {
        self.term.clear_line(mode)
    }

    #[verifier::external_body]
    fn set_color(&mut self, index: usize, color: AnsiRgb) {
        self.term.set_color(index, color)
    }

    #[verifier::external_body]
    fn dynamic_color_sequence(&mut self, prefix: String, index: usize, terminator: &str) {
        self.term.dynamic_color_sequence(prefix, index, terminator)
    }

    #[verifier::external_body]
    fn reset_color(&mut self, index: usize) {
        self.term.reset_color(index)
    }

    #[verifier::external_body]
    fn clipboard_store(&mut self, clipboard: u8, base64: &[u8]) {
        self.term.clipboard_store(clipboard, base64)
    }

    #[verifier::external_body]
    fn clipboard_load(&mut self, clipboard: u8, terminator: &str) {
        self.term.clipboard_load(clipboard, terminator)
    }

    /// Relies on `Term::clear_screen` of `alacritty_terminal` (the
    /// erase-in-display action): the signal is recorded before the clear
    /// is forwarded, so an observer sees the screen the clear erases.
    #[verifier::external_body]
    fn clear_screen(&mut self, mode: ClearMode) {
        self.signals.borrow_mut().push(AnsiSignal::ClearScreen);
        self.term.clear_screen(mode)
    }

    #[verifier::external_body]
    fn clear_tabs(&mut self, mode: TabulationClearMode) {
        self.term.clear_tabs(mode)
    }

    #[verifier::external_body]
    fn reset_state(&mut self) {
        self.term.reset_state()
    }

    #[verifier::external_body]
    fn reverse_index(&mut self) {
        self.term.reverse_index()
    }

    #[verifier::external_body]
    fn set_hyperlink(&mut self, hyperlink: Option<Hyperlink>) {
        self.term.set_hyperlink(hyperlink)
    }

    #[verifier::external_body]
    fn terminal_attribute(&mut self, attr: Attr) {
        self.term.terminal_attribute(attr)
    }

    /// Relies on `Term::set_private_mode` of `alacritty_terminal`: DEC
    /// private mode 1049 enters the alternate screen buffer; the signal is
    /// recorded before the mode change is forwarded.
    #[verifier::external_body]
    fn set_private_mode(&mut self, mode: PrivateMode) {
        if matches!(mode, PrivateMode::Named(NamedPrivateMode::SwapScreenAndSetRestoreCursor)) {
            self.signals.borrow_mut().push(
                AnsiSignal::AlternateScreenBuffer { enable: true },
            );
        }
        self.term.set_private_mode(mode)
    }

    /// Relies on `Term::unset_private_mode` of `alacritty_terminal`: DEC
    /// private mode 1049 leaves the alternate screen buffer; the signal is
    /// recorded before the mode change is forwarded.
    #[verifier::external_body]
    fn unset_private_mode(&mut self, mode: PrivateMode) {
        if matches!(mode, PrivateMode::Named(NamedPrivateMode::SwapScreenAndSetRestoreCursor)) {
            self.signals.borrow_mut().push(
                AnsiSignal::AlternateScreenBuffer { enable: false },
            );
        }
        self.term.unset_private_mode(mode)
    }

    #[verifier::external_body]
    fn report_private_mode(&mut self, mode: PrivateMode) {
        self.term.report_private_mode(mode)
    }

    #[verifier::external_body]
    fn set_mode(&mut self, mode: AnsiMode) {
        self.term.set_mode(mode)
    }

    #[verifier::external_body]
    fn unset_mode(&mut self, mode: AnsiMode) {
        self.term.unset_mode(mode)
    }

    #[verifier::external_body]
    fn report_mode(&mut self, mode: AnsiMode) {
        self.term.report_mode(mode)
    }

    #[verifier::external_body]
    fn set_scrolling_region(&mut self, top: usize, bottom: Option<usize>) {
        self.term.set_scrolling_region(top, bottom)
    }

    #[verifier::external_body]
    fn set_keypad_application_mode(&mut self) {
        self.term.set_keypad_application_mode()
    }

    #[verifier::external_body]
    fn unset_keypad_application_mode(&mut self) {
        self.term.unset_keypad_application_mode()
    }

    #[verifier::external_body]
    fn configure_charset(&mut self, index: CharsetIndex, charset: StandardCharset) {
        self.term.configure_charset(index, charset)
    }

    #[verifier::external_body]
    fn set_active_charset(&mut self, index: CharsetIndex) {
        self.term.set_active_charset(index)
    }

    #[verifier::external_body]
    fn set_cursor_style(&mut self, style: Option<CursorStyle>) {
        self.term.set_cursor_style(style)
    }

    #[verifier::external_body]
    fn set_cursor_shape(&mut self, shape: CursorShape) {
        self.term.set_cursor_shape(shape)
    }

    #[verifier::external_body]
    fn set_title(&mut self, title: Option<String>) {
        self.term.set_title(title)
    }

    #[verifier::external_body]
    fn push_title(&mut self) {
        self.term.push_title()
    }

    #[verifier::external_body]
    fn pop_title(&mut self) {
        self.term.pop_title()
    }

    #[verifier::external_body]
    fn text_area_size_pixels(&mut self) {
        self.term.text_area_size_pixels()
    }

    #[verifier::external_body]
    fn text_area_size_chars(&mut self) {
        self.term.text_area_size_chars()
    }
}

/// The number of lines the emulator was created with.
pub uninterp spec fn emu_lines(e: Emu) -> nat;

/// The number of columns the emulator was created with.
pub uninterp spec fn emu_cols(e: Emu) -> nat;

/// The events fed to the emulator so far, oldest first.
pub uninterp spec fn emu_events(e: Emu) -> Seq<TermEvent>;

/// The visible grid, in row-major order, of an emulator created with the
/// given size after consuming the given events. The emulation is
/// deterministic: the grid depends on the starting size and the events
/// alone.
pub uninterp spec fn emu_run(lines: nat, cols: nat, events: Seq<TermEvent>) -> Seq<TermCell>;

/// Every response an emulator of the given starting size has sent after
/// consuming the given events, oldest first. Like the grid, the responses
/// are a function of the starting size and the events alone: each is
/// computed from the terminal's own state (cursor position, modes, the
/// fixed attribute report).
pub uninterp spec fn emu_responses(lines: nat, cols: nat, events: Seq<TermEvent>) -> Seq<
    Seq<char>,
>;

/// Whether the alternate screen buffer is active after the given events.
pub uninterp spec fn emu_alt(lines: nat, cols: nat, events: Seq<TermEvent>) -> bool;

/// Every distinguished signal an emulator of the given starting size has
/// fired after consuming the given events, oldest first: one
/// [`AnsiSignal::ClearScreen`] per erase-in-display action, and one
/// [`AnsiSignal::AlternateScreenBuffer`] per DEC private mode 1049 set or
/// unset. Like the grid, the signals are a function of the starting size
/// and the events alone.
pub uninterp spec fn emu_signals(lines: nat, cols: nat, events: Seq<TermEvent>) -> Seq<
    AnsiSignal,
>;

/// The cell every fresh grid position holds: a space in the default
/// foreground over the default background, with no style flags.
pub open spec fn default_term_cell() -> TermCell {
    TermCell {
        c: ' ',
        fg: Color::Named(256),
        bg: Color::Named(257),
        bold: false,
        italic: false,
        underline: false,
        strikethrough: false,
    }
}

/// The grid size after the given events: the last resize, or the starting
/// size if no resize occurred.
pub open spec fn cur_dims(lines: nat, cols: nat, events: Seq<TermEvent>) -> (nat, nat)
    decreases events.len(),
{
    if events.len() == 0 {
        (lines, cols)
    } else {
        match events.last() {
            TermEvent::Resize(l, c) => (l as nat, c as nat),
            TermEvent::Byte(_) => cur_dims(lines, cols, events.drop_last()),
        }
    }
}

/// Construct the emulator at the given size with all cells default.
///
/// Relies on `alacritty_terminal::Term::new` and `vte`'s `Processor::new`:
/// a fresh terminal of the requested size on the primary screen, with no
/// responses sent, whose grid holds the default cell (`Cell::default`: a
/// space, the named default foreground and background, no flags) at every
/// one of its `lines * columns` positions.
#[verifier::external_body]
fn emu_new(lines: u16, columns: u16) -> (r: Emu)
    requires
        lines >= 1,
        columns >= 1,
    ensures
        emu_lines(r) == lines,
        emu_cols(r) == columns,
        emu_events(r) == Seq::<TermEvent>::empty(),
        emu_run(emu_lines(r), emu_cols(r), emu_events(r)) == Seq::new(
            (lines * columns) as nat,
            |i: int| default_term_cell(),
        ),
        emu_responses(emu_lines(r), emu_cols(r), emu_events(r)) == Seq::<Seq<char>>::empty(),
        emu_signals(emu_lines(r), emu_cols(r), emu_events(r)) == Seq::<AnsiSignal>::empty(),
        emu_alt(emu_lines(r), emu_cols(r), emu_events(r)) == false,
{
    let size = TermSize::new(columns as usize, lines as usize);
    let responses = std::rc::Rc::new(std::cell::RefCell::new(Vec::new()));
    let listener = RespListener { sink: responses.clone() };
    Emu {
        term: alacritty_terminal::Term::new(Config::default(), &size, listener),
        processor: Some(Processor::new()),
        responses,
        signals: std::rc::Rc::new(std::cell::RefCell::new(Vec::new())),
    }
}

/// Feed one byte through the parser into the terminal, returning the
/// responses and the distinguished signals this byte produced, each oldest
/// first.
///
/// Relies on `vte`'s `Processor::advance` driving the [`Handler`] impl
/// above, which forwards every action to `alacritty_terminal::Term` and
/// records the distinguished signals: it consumes the byte, performs no
/// input or output, and sends each response synchronously to the listener;
/// the body drains both shared buffers. A synchronized-update sequence
/// would make the parser buffer bytes against a wall-clock deadline;
/// flushing it with `Processor::stop_sync` right away keeps grid,
/// responses and signals functions of the bytes alone.
#[verifier::external_body]
fn emu_process(e: &mut Emu, byte: u8) -> (r: (Vec<String>, Vec<AnsiSignal>))
    ensures
        emu_lines(*final(e)) == emu_lines(*old(e)),
        emu_cols(*final(e)) == emu_cols(*old(e)),
        emu_events(*final(e)) == emu_events(*old(e)).push(TermEvent::Byte(byte)),
        emu_responses(emu_lines(*final(e)), emu_cols(*final(e)), emu_events(*final(e)))
            == emu_responses(emu_lines(*old(e)), emu_cols(*old(e)), emu_events(*old(e)))
            + r.0@.map_values(|s: String| s@),
        emu_signals(emu_lines(*final(e)), emu_cols(*final(e)), emu_events(*final(e)))
            == emu_signals(emu_lines(*old(e)), emu_cols(*old(e)), emu_events(*old(e))) + r.1@,
{
    let mut processor = e.processor.take().expect("the parser is present between calls");
    let b = [byte];
    processor.advance(&mut *e, &b);
    if processor.sync_timeout().pending_timeout() {
        processor.stop_sync(&mut *e);
    }
    e.processor = Some(processor);
    (
        std::mem::take(&mut *e.responses.borrow_mut()),
        std::mem::take(&mut *e.signals.borrow_mut()),
    )
}

/// Resize the terminal grid.
///
/// Relies on `alacritty_terminal::Term::resize`: afterwards the visible
/// grid has the requested size; no response is sent and the active screen
/// buffer does not change.
#[verifier::external_body]
fn emu_resize(e: &mut Emu, lines: u16, columns: u16)
    requires
        lines >= 1,
        columns >= 1,
    ensures
        emu_lines(*final(e)) == emu_lines(*old(e)),
        emu_cols(*final(e)) == emu_cols(*old(e)),
        emu_events(*final(e)) == emu_events(*old(e)).push(TermEvent::Resize(lines, columns)),
        emu_responses(emu_lines(*final(e)), emu_cols(*final(e)), emu_events(*final(e)))
            == emu_responses(emu_lines(*old(e)), emu_cols(*old(e)), emu_events(*old(e))),
        emu_signals(emu_lines(*final(e)), emu_cols(*final(e)), emu_events(*final(e)))
            == emu_signals(emu_lines(*old(e)), emu_cols(*old(e)), emu_events(*old(e))),
        emu_alt(emu_lines(*final(e)), emu_cols(*final(e)), emu_events(*final(e))) == emu_alt(
            emu_lines(*old(e)),
            emu_cols(*old(e)),
            emu_events(*old(e)),
        ),
{
    e.term.resize(TermSize::new(columns as usize, lines as usize));
}

/// Copy the visible grid out as plain cells, top row first.
///
/// Relies on `Grid::display_iter` of `alacritty_terminal`: it yields the
/// visible cells in row-major order, one per grid position, and on the
/// `Flags` bit set of its cells for the style flags. Color tokens are
/// carried over unchanged.
#[verifier::external_body]
fn emu_cells(e: &Emu) -> (r: Vec<TermCell>)
    ensures
        r@ == emu_run(emu_lines(*e), emu_cols(*e), emu_events(*e)),
        r@.len() == cur_dims(emu_lines(*e), emu_cols(*e), emu_events(*e)).0 * cur_dims(
            emu_lines(*e),
            emu_cols(*e),
            emu_events(*e),
        ).1,
{
    let cc = |c: VteColor| -> Color { match c {
        VteColor::Named(n) => Color::Named(n as u16),
        VteColor::Indexed(i) => Color::Indexed(i),
        VteColor::Spec(s) => Color::Direct(Rgb { r: s.r, g: s.g, b: s.b }),
    } };
    e.term.grid().display_iter().map(|p| TermCell {
        c: p.cell.c, fg: cc(p.cell.fg), bg: cc(p.cell.bg),
        bold: p.cell.flags.intersects(Flags::BOLD),
        italic: p.cell.flags.intersects(Flags::ITALIC),
        underline: p.cell.flags.intersects(Flags::ALL_UNDERLINES),
        strikethrough: p.cell.flags.intersects(Flags::STRIKEOUT),
    }).collect()
}

/// The screen cell a grid cell projects to: colors resolved through the
/// fixed palette, everything else carried over.
pub open spec fn project_cell(tc: TermCell) -> Cell {
    Cell {
        c: tc.c,
        fg: resolve_spec(tc.fg),
        bg: resolve_spec(tc.bg),
        bold: tc.bold,
        italic: tc.italic,
        underline: tc.underline,
        strikethrough: tc.strikethrough,
    }
}

/// The projection of a whole grid to screen cells.
pub open spec fn project_grid(g: Seq<TermCell>) -> Seq<Cell> {
    g.map_values(|tc: TermCell| project_cell(tc))
}

/// An in-memory terminal emulator. Responses to status queries go to the
/// [`PtyWriter`] supplied at construction, synchronously as the byte
/// stream produces them.
pub struct Term<W: PtyWriter> {
    lines: u16,
    columns: u16,
    emu: Emu,
    /// The sink the emulator's responses are handed to.
    pub pty_writer: W,
}

impl<W: PtyWriter> Term<W> {
    /// The size fields track the grid size after the events so far, and the
    /// grid is never empty in either dimension.
    pub closed spec fn wf(&self) -> bool {
        &&& self.lines >= 1
        &&& self.columns >= 1
        &&& cur_dims(emu_lines(self.emu), emu_cols(self.emu), emu_events(self.emu)) == (
        self.lines as nat,
        self.columns as nat,
        )
    }

    /// The number of lines of the grid.
    pub closed spec fn spec_lines(&self) -> u16 {
        self.lines
    }

    /// The number of columns of the grid.
    pub closed spec fn spec_columns(&self) -> u16 {
        self.columns
    }

    /// The events fed to the emulator so far.
    pub closed spec fn spec_events(&self) -> Seq<TermEvent> {
        emu_events(self.emu)
    }

    /// The number of lines the emulator was created with.
    pub closed spec fn init_lines(&self) -> nat {
        emu_lines(self.emu)
    }

    /// The number of columns the emulator was created with.
    pub closed spec fn init_cols(&self) -> nat {
        emu_cols(self.emu)
    }

    /// The visible grid of the emulator, as named by [`emu_run`].
    pub closed spec fn grid_spec(&self) -> Seq<TermCell> {
        emu_run(emu_lines(self.emu), emu_cols(self.emu), emu_events(self.emu))
    }

    /// Every response sent so far, as named by [`emu_responses`].
    pub closed spec fn spec_responses(&self) -> Seq<Seq<char>> {
        emu_responses(emu_lines(self.emu), emu_cols(self.emu), emu_events(self.emu))
    }

    /// Whether the alternate screen buffer is active, as named by
    /// [`emu_alt`].
    pub closed spec fn spec_alt(&self) -> bool {
        emu_alt(emu_lines(self.emu), emu_cols(self.emu), emu_events(self.emu))
    }

    /// Every distinguished signal fired so far, as named by
    /// [`emu_signals`].
    pub closed spec fn spec_signals(&self) -> Seq<AnsiSignal> {
        emu_signals(emu_lines(self.emu), emu_cols(self.emu), emu_events(self.emu))
    }

    /// Create a new emulated terminal with a cell matrix of `lines` by
    /// `columns`. `pty_writer` receives the emulator's responses to status
    /// queries; use [`VoidPtyWriter`] to discard them.
    pub fn new(lines: u16, columns: u16, pty_writer: W) -> (r: Term<W>)
        requires
            lines >= 1,
            columns >= 1,
        ensures
            r.wf(),
            r.spec_lines() == lines,
            r.spec_columns() == columns,
            r.init_lines() == lines,
            r.init_cols() == columns,
            r.spec_events() == Seq::<TermEvent>::empty(),
            r.grid_spec() == Seq::new((lines * columns) as nat, |i: int| default_term_cell()),
            r.spec_responses() == Seq::<Seq<char>>::empty(),
            r.spec_signals() == Seq::<AnsiSignal>::empty(),
            r.spec_alt() == false,
    {
        Term { lines, columns, emu: emu_new(lines, columns), pty_writer }
    }

    /// Process one byte of ANSI-escaped terminal data. Each response the
    /// byte produces is handed to the writer at once, oldest first.
    pub fn process(&mut self, byte: u8)
        requires
            old(self).wf(),
        ensures
            final(self).wf(),
            final(self).spec_lines() == old(self).spec_lines(),
            final(self).spec_columns() == old(self).spec_columns(),
            final(self).init_lines() == old(self).init_lines(),
            final(self).init_cols() == old(self).init_cols(),
            final(self).spec_events() == old(self).spec_events().push(TermEvent::Byte(byte)),
            old(self).spec_responses().is_prefix_of(final(self).spec_responses()),
            old(self).spec_signals().is_prefix_of(final(self).spec_signals()),
    {
        let (responses, _signals) = emu_process(&mut self.emu, byte);
        proof {
            let ev = emu_events(self.emu);
            assert(ev.drop_last() =~= emu_events(old(self).emu));
            let delta = responses@.map_values(|s: String| s@);
            assert(old(self).spec_responses() =~= (old(self).spec_responses() + delta).take(
                old(self).spec_responses().len() as int,
            ));
            assert(old(self).spec_signals() =~= (old(self).spec_signals() + _signals@).take(
                old(self).spec_signals().len() as int,
            ));
        }
        let ghost sl = self.spec_lines();
        let ghost sc = self.spec_columns();
        let ghost il = self.init_lines();
        let ghost ic = self.init_cols();
        let ghost sev = self.spec_events();
        let ghost sresp = self.spec_responses();
        let ghost ssig = self.spec_signals();
        let mut i: usize = 0;
        while i < responses.len()
            invariant
                self.wf(),
                self.spec_lines() == sl,
                self.spec_columns() == sc,
                self.init_lines() == il,
                self.init_cols() == ic,
                self.spec_events() == sev,
                self.spec_responses() == sresp,
                self.spec_signals() == ssig,
            decreases responses@.len() - i,
        {
            let text = responses[i].clone();
            self.pty_writer.write(text);
            i = i + 1;
        }
    }

    /// Process one byte like [`Term::process`], and report the first
    /// distinguished signal the byte fired — a screen clear, or entering
    /// or leaving the alternate screen buffer — together with the screen
    /// as it stood just before the byte took effect, so a caller can keep
    /// the last frame a full-screen program drew before a destructive
    /// transition.
    pub fn process_observed(&mut self, byte: u8) -> (r: Option<(AnsiSignal, Screen)>)
        requires
            old(self).wf(),
        ensures
            final(self).wf(),
            final(self).spec_lines() == old(self).spec_lines(),
            final(self).spec_columns() == old(self).spec_columns(),
            final(self).init_lines() == old(self).init_lines(),
            final(self).init_cols() == old(self).init_cols(),
            final(self).spec_events() == old(self).spec_events().push(TermEvent::Byte(byte)),
            old(self).spec_responses().is_prefix_of(final(self).spec_responses()),
            old(self).spec_signals().is_prefix_of(final(self).spec_signals()),
            (r is Some) == (old(self).spec_signals().len() < final(self).spec_signals().len()),
            r matches Some(p) ==> p.0 == final(self).spec_signals()[old(
                self,
            ).spec_signals().len() as int] && p.1.wf() && p.1.spec_lines() == old(
                self,
            ).spec_lines() && p.1.spec_columns() == old(self).spec_columns() && p.1.spec_cells()
                == project_grid(old(self).grid_spec()),
    {
        let pre = self.current_screen();
        let (responses, signals) = emu_process(&mut self.emu, byte);
        proof {
            let ev = emu_events(self.emu);
            assert(ev.drop_last() =~= emu_events(old(self).emu));
            let delta = responses@.map_values(|s: String| s@);
            assert(old(self).spec_responses() =~= (old(self).spec_responses() + delta).take(
                old(self).spec_responses().len() as int,
            ));
            assert(old(self).spec_signals() =~= (old(self).spec_signals() + signals@).take(
                old(self).spec_signals().len() as int,
            ));
        }
        let ghost sl = self.spec_lines();
        let ghost sc = self.spec_columns();
        let ghost il = self.init_lines();
        let ghost ic = self.init_cols();
        let ghost sev = self.spec_events();
        let ghost sresp = self.spec_responses();
        let ghost ssig = self.spec_signals();
        let mut i: usize = 0;
        while i < responses.len()
            invariant
                self.wf(),
                self.spec_lines() == sl,
                self.spec_columns() == sc,
                self.init_lines() == il,
                self.init_cols() == ic,
                self.spec_events() == sev,
                self.spec_responses() == sresp,
                self.spec_signals() == ssig,
            decreases responses@.len() - i,
        {
            let text = responses[i].clone();
            self.pty_writer.write(text);
            i = i + 1;
        }
        if signals.len() > 0 {
            Some((signals[0], pre))
        } else {
            None
        }
    }

    /// Resize the terminal screen to the specified dimensions.
    pub fn resize(&mut self, lines: u16, columns: u16)
        requires
            old(self).wf(),
            lines >= 1,
            columns >= 1,
        ensures
            final(self).wf(),
            final(self).spec_lines() == lines,
            final(self).spec_columns() == columns,
            final(self).init_lines() == old(self).init_lines(),
            final(self).init_cols() == old(self).init_cols(),
            final(self).spec_events() == old(self).spec_events().push(
                TermEvent::Resize(lines, columns),
            ),
            final(self).spec_responses() == old(self).spec_responses(),
            final(self).spec_signals() == old(self).spec_signals(),
            final(self).spec_alt() == old(self).spec_alt(),
    {
        emu_resize(&mut self.emu, lines, columns);
        self.lines = lines;
        self.columns = columns;
        proof {
            let ev = emu_events(self.emu);
            assert(ev.drop_last() =~= emu_events(old(self).emu));
        }
    }

    /// Get a snapshot of the current terminal screen: every grid cell with
    /// its colors resolved through the fixed palette.
    pub fn current_screen(&self) -> (r: Screen)
        requires
            self.wf(),
        ensures
            r.wf(),
            r.spec_lines() == self.spec_lines(),
            r.spec_columns() == self.spec_columns(),
            r.spec_cells() == project_grid(self.grid_spec()),
    {
        let colors = Colors::new();
        let raw = emu_cells(&self.emu);
        let mut cells: Vec<Cell> = Vec::new();
        let mut i: usize = 0;
        while i < raw.len()
            invariant
                i <= raw@.len(),
                colors.wf(),
                cells@.len() == i,
                forall|j: int| 0 <= j < i ==> cells@[j] == project_cell(raw@[j]),
            decreases raw@.len() - i,
        {
            let tc = raw[i];
            let cell = Cell {
                c: tc.c,
                fg: colors.to_rgb(tc.fg),
                bg: colors.to_rgb(tc.bg),
                bold: tc.bold,
                italic: tc.italic,
                underline: tc.underline,
                strikethrough: tc.strikethrough,
            };
            cells.push(cell);
            i = i + 1;
        }
        proof {
            assert(self.grid_spec() == raw@);
            assert(cells@.len() == raw@.len());
            let f = |tc: TermCell| project_cell(tc);
            assert(raw@.map_values(f).len() == raw@.len());
            assert forall|j: int| 0 <= j < raw@.len() implies cells@[j] == raw@.map_values(f)[j]
                by {
                assert(raw@.map_values(f)[j] == f(raw@[j]));
            }
            assert(cells@ =~= self.grid_spec().map_values(f));
            assert(cells@ == project_grid(self.grid_spec()));
        }
        Screen::from_parts(self.lines, self.columns, cells)
    }
}

/// The grid, the responses, the distinguished signals and the
/// alternate-screen state of a terminal are the named model functions
/// applied to its creation size and its event history. Two terminals
/// created at the same size and fed the same events therefore agree on all
/// four, whichever processing entry points fed them — in particular,
/// [`Term::process`] and [`Term::process_observed`] advance a terminal to
/// the same state.
pub proof fn lemma_term_state_is_model<W: PtyWriter>(t: &Term<W>)
    ensures
        t.grid_spec() == emu_run(t.init_lines(), t.init_cols(), t.spec_events()),
        t.spec_responses() == emu_responses(t.init_lines(), t.init_cols(), t.spec_events()),
        t.spec_signals() == emu_signals(t.init_lines(), t.init_cols(), t.spec_events()),
        t.spec_alt() == emu_alt(t.init_lines(), t.init_cols(), t.spec_events()),
{
}

/// A fresh grid projects to the default screen cell everywhere: a space in
/// the default foreground over the default background, with no style flags.
/// With [`Term::new`]'s fresh-grid clause, the first snapshot of a new
/// emulator is the all-default screen.
pub proof fn lemma_fresh_grid_projects_default(n: nat)
    ensures
        project_grid(Seq::new(n, |i: int| default_term_cell())) == Seq::new(
            n,
            |i: int| crate::screen::default_cell(),
        ),
{
    assert(project_cell(default_term_cell()) == crate::screen::default_cell());
    assert(project_grid(Seq::new(n, |i: int| default_term_cell())) =~= Seq::new(
        n,
        |i: int| crate::screen::default_cell(),
    ));
}

/// The event sequence for a plain byte stream.
pub open spec fn byte_events(bytes: Seq<u8>) -> Seq<TermEvent> {
    bytes.map_values(|b: u8| TermEvent::Byte(b))
}

/// Feed an ANSI sequence through a fresh terminal emulator and return the
/// resulting terminal screen contents. Responses the stream provokes are
/// discarded.
pub fn emulate(lines: u16, columns: u16, ansi_sequence: &[u8]) -> (r: Screen)
    requires
        lines >= 1,
        columns >= 1,
    ensures
        r.wf(),
        r.spec_lines() == lines,
        r.spec_columns() == columns,
        r.spec_cells() == project_grid(
            emu_run(lines as nat, columns as nat, byte_events(ansi_sequence@)),
        ),
{
    let mut term = Term::new(lines, columns, VoidPtyWriter);
    let mut i: usize = 0;
    while i < ansi_sequence.len()
        invariant
            i <= ansi_sequence@.len(),
            term.wf(),
            term.spec_lines() == lines,
            term.spec_columns() == columns,
            term.init_lines() == lines as nat,
            term.init_cols() == columns as nat,
            term.spec_events() == byte_events(ansi_sequence@.take(i as int)),
        decreases ansi_sequence@.len() - i,
    {
        term.process(ansi_sequence[i]);
        proof {
            assert(byte_events(ansi_sequence@.take(i + 1)) =~= byte_events(
                ansi_sequence@.take(i as int),
            ).push(TermEvent::Byte(ansi_sequence@[i as int])));
        }
        i = i + 1;
    }
    proof {
        assert(ansi_sequence@.take(ansi_sequence@.len() as int) =~= ansi_sequence@);
    }
    term.current_screen()
}

} // verus!
