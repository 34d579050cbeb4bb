//! Tests of the terminal emulator: byte streams in, cell grids out, and
//! query responses to the sink supplied at construction.

use termsnap::proxy::ResponseQueue;
use termsnap::{emulate, AnsiSignal, Rgb, Term, VoidPtyWriter};

fn default_fg() -> Rgb {
    Rgb { r: 0x83, g: 0x94, b: 0x96 }
}

fn default_bg() -> Rgb {
    Rgb { r: 0x00, g: 0x2b, b: 0x36 }
}

fn ls_bytes() -> Vec<u8> {
    let text = "total 60
drwxr-xr-x  6 thomas users  4096 Jun 19 15:58 .
drwxr-xr-x 34 thomas users  4096 Jun 16 10:28 ..
-rw-r--r--  1 thomas users 19422 Jun 18 17:22 Cargo.lock
-rw-r--r--  1 thomas users   749 Jun 19 11:33 Cargo.toml
-rw-r--r--  1 thomas users  1940 Jun 16 11:19 flake.lock
-rw-r--r--  1 thomas users   640 Jun 16 11:19 flake.nix
drwxr-xr-x  7 thomas users  4096 Jun 16 11:19 .git
-rw-r--r--  1 thomas users   231 Jun 16 11:30 README.md
drwxr-xr-x  2 thomas users  4096 Jun 19 12:20 src
drwxr-xr-x  3 thomas users  4096 Jun 18 14:36 target
drwxr-xr-x  3 thomas users  4096 Jun 18 11:22 termsnap-lib";
    let mut out: Vec<u8> = Vec::new();
    for b in text.bytes() {
        if b == b'\n' {
            out.push(b'\r');
        }
        out.push(b);
    }
    out
}

#[test]
fn test() {
    let screen = emulate(24, 80, &ls_bytes());
    let expected = "total 60
drwxr-xr-x  6 thomas users  4096 Jun 19 15:58 .
drwxr-xr-x 34 thomas users  4096 Jun 16 10:28 ..
-rw-r--r--  1 thomas users 19422 Jun 18 17:22 Cargo.lock
-rw-r--r--  1 thomas users   749 Jun 19 11:33 Cargo.toml
-rw-r--r--  1 thomas users  1940 Jun 16 11:19 flake.lock
-rw-r--r--  1 thomas users   640 Jun 16 11:19 flake.nix
drwxr-xr-x  7 thomas users  4096 Jun 16 11:19 .git
-rw-r--r--  1 thomas users   231 Jun 16 11:30 README.md
drwxr-xr-x  2 thomas users  4096 Jun 19 12:20 src
drwxr-xr-x  3 thomas users  4096 Jun 18 14:36 target
drwxr-xr-x  3 thomas users  4096 Jun 18 11:22 termsnap-lib";

    let mut line: u16 = 0;
    let mut column: u16 = 0;

    for c in expected.chars() {
        match c {
            '\n' => {
                for column in column..80 {
                    let idx = screen.idx(line, column);
                    assert_eq!(screen.cells()[idx].c, ' ', "failed at {line}x{column}");
                }
                column = 0;
                line += 1;
            }
            _ => {
                let idx = screen.idx(line, column);
                assert_eq!(screen.cells()[idx].c, c, "failed at {line}x{column}");
                column += 1;
            }
        }
    }
}

#[test]
fn hello_world_cells() {
    // A plain run of text lands in the first cells of row 0; everything
    // else stays a default space.
    let screen = emulate(20, 80, b"hello, world");
    let content: String = screen.cells().iter().map(|c| c.c).collect();
    assert_eq!(&content[..12], "hello, world");
    for (i, cell) in screen.cells().iter().enumerate() {
        if i < 12 {
            continue;
        }
        assert_eq!(cell.c, ' ');
        assert_eq!(cell.fg, default_fg());
        assert_eq!(cell.bg, default_bg());
    }
}

#[test]
fn colored_run() {
    // A single SGR color applies to exactly the run it brackets.
    let screen = emulate(24, 80, b"a line of \x1B[32mcolored\x1B[0m terminal data");
    let green = Rgb { r: 0x85, g: 0x99, b: 0x00 };
    for x in 0..10u16 {
        assert_eq!(screen.get(0, x).unwrap().fg, default_fg(), "column {x}");
    }
    for x in 10..17u16 {
        assert_eq!(screen.get(0, x).unwrap().fg, green, "column {x}");
    }
    for x in 17..39u16 {
        assert_eq!(screen.get(0, x).unwrap().fg, default_fg(), "column {x}");
    }
    assert_eq!(screen.get(0, 0).unwrap().fg.hex(), "#839496");
    assert_eq!(screen.get(0, 10).unwrap().fg.hex(), "#859900");
    let text: String = screen.cells().iter().map(|c| c.c).collect();
    assert_eq!(text.trim(), "a line of colored terminal data");
}

#[test]
fn sgr_roundtrip() {
    // Set one foreground color, write printable text, reset: the bracketed
    // cells carry the color, all others the default.
    let screen = emulate(4, 10, b"\x1B[31mAB\x1B[0mC");
    let red = Rgb { r: 0xdc, g: 0x32, b: 0x2f };
    for y in 0..4u16 {
        for x in 0..10u16 {
            let cell = screen.get(y, x).unwrap();
            if y == 0 && x < 2 {
                assert_eq!(cell.fg, red);
            } else {
                assert_eq!(cell.fg, default_fg(), "at {y}x{x}");
            }
        }
    }
}

#[test]
fn clear_screen_empties_grid() {
    // Pre-fill a 10x10 grid, then home the cursor and clear the screen:
    // every cell is a space again.
    let mut bytes = vec![b'X'; 100];
    bytes.extend_from_slice(b"\x1B[H\x1B[2J");
    let screen = emulate(10, 10, &bytes);
    assert_eq!(screen.cells().len(), 100);
    for cell in screen.cells().iter() {
        assert_eq!(cell.c, ' ');
    }
}

#[test]
fn snapshot_always_full_size() {
    // Whatever bytes are fed, including malformed UTF-8 and unfinished
    // escapes, the snapshot has exactly lines x columns cells.
    let cases: Vec<(u16, u16, Vec<u8>)> = vec![
        (1, 1, vec![]),
        (1, 1, b"abcdef".to_vec()),
        (5, 7, vec![0xff, 0xfe, 0x1b, b'[']),
        (3, 3, b"\x1B[999;999H\x1B[2Jxyz\r\n\r\n\r\n\r\n\r\n".to_vec()),
        (24, 80, b"\x1B]0;title\x07plain".to_vec()),
    ];
    for (lines, columns, bytes) in cases {
        let screen = emulate(lines, columns, &bytes);
        assert_eq!(screen.lines(), lines);
        assert_eq!(screen.columns(), columns);
        assert_eq!(screen.cells().len(), usize::from(lines) * usize::from(columns));
    }
}

#[test]
fn fresh_screen_is_default() {
    // A new emulator's first snapshot is the all-default screen.
    let term = Term::new(3, 4, VoidPtyWriter);
    let screen = term.current_screen();
    assert_eq!(screen.cells().len(), 12);
    for cell in screen.cells().iter() {
        assert_eq!(cell.c, ' ');
        assert_eq!(cell.fg, default_fg());
        assert_eq!(cell.bg, default_bg());
        assert!(!cell.bold && !cell.italic && !cell.underline && !cell.strikethrough);
    }
}

#[test]
fn status_queries_are_answered() {
    // Device status, device attributes and cursor position queries each
    // produce the expected response on the supplied sink, in order.
    let mut term = Term::new(5, 10, ResponseQueue::new());
    for b in b"\x1B[5n\x1B[c\x1B[6n" {
        term.process(*b);
    }
    assert_eq!(term.pty_writer.pop_front().unwrap(), b"\x1b[0n".to_vec());
    assert_eq!(term.pty_writer.pop_front().unwrap(), b"\x1b[?6c".to_vec());
    assert_eq!(term.pty_writer.pop_front().unwrap(), b"\x1b[1;1R".to_vec());
    assert!(term.pty_writer.is_empty());
}

#[test]
fn printable_bytes_produce_no_response() {
    let mut term = Term::new(5, 10, ResponseQueue::new());
    for b in b"plain text, no queries" {
        term.process(*b);
    }
    assert!(term.pty_writer.is_empty());
}

#[test]
fn alt_screen_observed() {
    // Entering and leaving the alternate screen buffer is reported with
    // the screen as it stood just before the switch.
    let mut term = Term::new(4, 8, VoidPtyWriter);
    for b in b"hi" {
        term.process(*b);
    }

    let mut fired = None;
    for b in b"\x1B[?1049h" {
        if let Some(sig) = term.process_observed(*b) {
            fired = Some(sig);
        }
    }
    let (sig, pre) = fired.expect("entering the alternate buffer is observed");
    assert_eq!(sig, AnsiSignal::AlternateScreenBuffer { enable: true });
    // the pre-transition screen still holds the primary content
    assert_eq!(pre.get(0, 0).unwrap().c, 'h');
    assert_eq!(pre.get(0, 1).unwrap().c, 'i');
    // the alternate buffer starts blank
    assert_eq!(term.current_screen().get(0, 0).unwrap().c, ' ');

    for b in b"\x1B[Htui" {
        term.process(*b);
    }
    let mut fired = None;
    for b in b"\x1B[?1049l" {
        if let Some(sig) = term.process_observed(*b) {
            fired = Some(sig);
        }
    }
    let (sig, pre) = fired.expect("leaving the alternate buffer is observed");
    assert_eq!(sig, AnsiSignal::AlternateScreenBuffer { enable: false });
    // the pre-transition screen is the full-screen program's last frame
    assert_eq!(pre.get(0, 0).unwrap().c, 't');
    // the primary content is restored afterwards
    assert_eq!(term.current_screen().get(0, 0).unwrap().c, 'h');
}

#[test]
fn wide_then_resize() {
    // Resizing the live terminal changes the snapshot size.
    let mut term = Term::new(10, 10, VoidPtyWriter);
    for b in b"hello" {
        term.process(*b);
    }
    term.resize(5, 20);
    let screen = term.current_screen();
    assert_eq!(screen.lines(), 5);
    assert_eq!(screen.columns(), 20);
    assert_eq!(screen.cells().len(), 100);
}

#[test]
fn clear_screen_observed() {
    // A screen clear is reported before it takes effect, with the screen
    // it is about to erase.
    let mut term = Term::new(10, 10, VoidPtyWriter);
    for _ in 0..100 {
        term.process(b'X');
    }
    let mut fired = None;
    for b in b"\x1B[H\x1B[2J" {
        if let Some(sig) = term.process_observed(*b) {
            fired = Some(sig);
        }
    }
    let (sig, pre) = fired.expect("the clear is observed");
    assert_eq!(sig, AnsiSignal::ClearScreen);
    // the pre-transition screen still holds the fill
    for y in 0..10 {
        for x in 0..10 {
            assert_eq!(pre.get(y, x).unwrap().c, 'X', "pre ({y}, {x})");
        }
    }
    // afterwards every cell is a space
    let after = term.current_screen();
    for y in 0..10 {
        for x in 0..10 {
            assert_eq!(after.get(y, x).unwrap().c, ' ', "after ({y}, {x})");
        }
    }
}

#[test]
fn out_of_range_cell_lookup_is_none() {
    // A position outside the grid reports no cell, whichever coordinate
    // overflows.
    let screen = emulate(2, 3, b"ab");
    assert_eq!(screen.get(0, 1).unwrap().c, 'b');
    assert!(screen.get(2, 0).is_none());
    assert!(screen.get(0, 3).is_none());
    assert!(screen.get(7, 7).is_none());
}
