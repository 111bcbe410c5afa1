use vstd::prelude::*;
use crate::args::ArgView;

verus! {

/// Maps a value read from the terminal (a byte, or a negative end-of-input
/// marker) to the byte handed to the shell: carriage return becomes line
/// feed, and only values in `1..=255` are forwarded.
pub fn normalize_input(c: i32) -> (r: Option<u8>)
    ensures
        r == (if c == 13 {
            Some(10u8)
        } else if 0 < c <= 255 {
            Some(c as u8)
        } else {
            None::<u8>
        }),
{
    if c == 13 {
        Some(10u8)
    } else if 0 < c && c <= 255 {
        Some(c as u8)
    } else {
        None
    }
}

/// The characters written to the terminal for one character that the shell
/// prints: a line feed becomes carriage return and line feed.
pub fn expand_output(c: char) -> (r: Vec<char>)
    ensures
        r@ == (if c == '\n' { seq!['\r', '\n'] } else { seq![c] }),
{
    let mut r: Vec<char> = Vec::new();
    if c == '\n' {
        r.push('\r');
    }
    r.push(c);
    r
}

pub open spec fn exit_word() -> Seq<u8> {
    seq![101u8, 120u8, 105u8, 116u8]
}

pub open spec fn quit_word() -> Seq<u8> {
    seq![113u8, 117u8, 105u8, 116u8]
}

fn is_word4(b: &[u8], w0: u8, w1: u8, w2: u8, w3: u8) -> (r: bool)
    ensures
        r == (b@ == seq![w0, w1, w2, w3]),
{
    if b.len() != 4 {
        assert(b@.len() != seq![w0, w1, w2, w3].len());
        return false;
    }
    let r = b[0] == w0 && b[1] == w1 && b[2] == w2 && b[3] == w3;
    if r {
        assert(b@ =~= seq![w0, w1, w2, w3]);
    } else {
        assert(b@ != seq![w0, w1, w2, w3]) by {
            if b@ == seq![w0, w1, w2, w3] {
                assert(b@[0] == w0 && b@[1] == w1 && b@[2] == w2 && b@[3] == w3);
            }
        }
    }
    r
}

/// Whether a command line asks the shell to end: its command name is `exit`
/// or `quit`.
pub fn is_quit_command(args: &ArgView) -> (r: bool)
    requires
        args.wf(),
    ensures
        r == (args@.len() > 0 && (args@[0] == exit_word() || args@[0] == quit_word())),
{
    if args.len() == 0 {
        return false;
    }
    let name = args.get(0);
    is_word4(name, 101, 120, 105, 116) || is_word4(name, 113, 117, 105, 116)
}

} // verus!
