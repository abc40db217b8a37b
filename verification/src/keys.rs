//! The byte sequences special keys send to the shell. Arrow keys honor the
//! application-cursor-keys mode the emulator tracks; control-letter chords
//! send the corresponding control byte.

use vstd::prelude::*;

verus! {

/// A special key of the terminal.
#[derive(Clone, Copy, PartialEq, Eq, Structural, Debug)]
pub enum TermKey {
    Enter,
    Tab,
    Backspace,
    Escape,
    ArrowUp,
    ArrowDown,
    ArrowRight,
    ArrowLeft,
    Home,
    End,
    PageUp,
    PageDown,
    Insert,
    Delete,
    Function(u8),
}

/// The escape byte.
pub open spec fn esc() -> u8 {
    0x1B
}

/// The bytes one key sends: arrow keys switch between the normal and the
/// application encodings; the function keys use their fixed sequences, and
/// unknown function numbers send nothing.
pub open spec fn key_bytes_spec(key: TermKey, app_mode: bool) -> Seq<u8> {
    match key {
        TermKey::Enter => seq![0x0Du8],
        TermKey::Tab => seq![0x09u8],
        TermKey::Backspace => seq![0x7Fu8],
        TermKey::Escape => seq![esc()],
        TermKey::ArrowUp => arrow(app_mode, 0x41u8),
        TermKey::ArrowDown => arrow(app_mode, 0x42u8),
        TermKey::ArrowRight => arrow(app_mode, 0x43u8),
        TermKey::ArrowLeft => arrow(app_mode, 0x44u8),
        TermKey::Home => seq![esc(), 0x5Bu8, 0x48u8],
        TermKey::End => seq![esc(), 0x5Bu8, 0x46u8],
        TermKey::PageUp => tilde_seq(seq![0x35u8]),
        TermKey::PageDown => tilde_seq(seq![0x36u8]),
        TermKey::Insert => tilde_seq(seq![0x32u8]),
        TermKey::Delete => tilde_seq(seq![0x33u8]),
        TermKey::Function(n) => function_key_bytes(n),
    }
}

/// An arrow sequence: the application form uses `O`, the normal form `[`.
pub open spec fn arrow(app_mode: bool, fin: u8) -> Seq<u8> {
    if app_mode {
        seq![esc(), 0x4Fu8, fin]
    } else {
        seq![esc(), 0x5Bu8, fin]
    }
}

/// A tilde-terminated sequence with the given digits.
pub open spec fn tilde_seq(digits: Seq<u8>) -> Seq<u8> {
    seq![esc(), 0x5Bu8] + digits + seq![0x7Eu8]
}

/// The fixed sequences of the twelve function keys; any other number
/// sends nothing.
pub open spec fn function_key_bytes(n: u8) -> Seq<u8> {
    if n == 1 {
        seq![esc(), 0x4Fu8, 0x50u8]
    } else if n == 2 {
        seq![esc(), 0x4Fu8, 0x51u8]
    } else if n == 3 {
        seq![esc(), 0x4Fu8, 0x52u8]
    } else if n == 4 {
        seq![esc(), 0x4Fu8, 0x53u8]
    } else if n == 5 {
        tilde_seq(seq![0x31u8, 0x35u8])
    } else if n == 6 {
        tilde_seq(seq![0x31u8, 0x37u8])
    } else if n == 7 {
        tilde_seq(seq![0x31u8, 0x38u8])
    } else if n == 8 {
        tilde_seq(seq![0x31u8, 0x39u8])
    } else if n == 9 {
        tilde_seq(seq![0x32u8, 0x30u8])
    } else if n == 10 {
        tilde_seq(seq![0x32u8, 0x31u8])
    } else if n == 11 {
        tilde_seq(seq![0x32u8, 0x33u8])
    } else if n == 12 {
        tilde_seq(seq![0x32u8, 0x34u8])
    } else {
        Seq::empty()
    }
}

/// Encode one special key for the shell.
pub fn key_bytes(key: TermKey, app_mode: bool) -> (r: Vec<u8>)
    ensures
        r@ == key_bytes_spec(key, app_mode),
{
    let mut v: Vec<u8> = Vec::new();
    match key {
        TermKey::Enter => {
            v.push(0x0D);
            proof {
                assert(v@ =~= key_bytes_spec(key, app_mode));
            }
        },
        TermKey::Tab => {
            v.push(0x09);
            proof {
                assert(v@ =~= key_bytes_spec(key, app_mode));
            }
        },
        TermKey::Backspace => {
            v.push(0x7F);
            proof {
                assert(v@ =~= key_bytes_spec(key, app_mode));
            }
        },
        TermKey::Escape => {
            v.push(0x1B);
            proof {
                assert(v@ =~= key_bytes_spec(key, app_mode));
            }
        },
        TermKey::ArrowUp => {
            push_arrow(&mut v, app_mode, 0x41);
            proof {
                assert(v@ =~= key_bytes_spec(key, app_mode));
            }
        },
        TermKey::ArrowDown => {
            push_arrow(&mut v, app_mode, 0x42);
            proof {
                assert(v@ =~= key_bytes_spec(key, app_mode));
            }
        },
        TermKey::ArrowRight => {
            push_arrow(&mut v, app_mode, 0x43);
            proof {
                assert(v@ =~= key_bytes_spec(key, app_mode));
            }
        },
        TermKey::ArrowLeft => {
            push_arrow(&mut v, app_mode, 0x44);
            proof {
                assert(v@ =~= key_bytes_spec(key, app_mode));
            }
        },
        TermKey::Home => {
            v.push(0x1B);
            v.push(0x5B);
            v.push(0x48);
            proof {
                assert(v@ =~= key_bytes_spec(key, app_mode));
            }
        },
        TermKey::End => {
            v.push(0x1B);
            v.push(0x5B);
            v.push(0x46);
            proof {
                assert(v@ =~= key_bytes_spec(key, app_mode));
            }
        },
        TermKey::PageUp => {
            push_tilde_one(&mut v, 0x35);
            proof {
                assert(v@ =~= key_bytes_spec(key, app_mode));
            }
        },
        TermKey::PageDown => {
            push_tilde_one(&mut v, 0x36);
            proof {
                assert(v@ =~= key_bytes_spec(key, app_mode));
            }
        },
        TermKey::Insert => {
            push_tilde_one(&mut v, 0x32);
            proof {
                assert(v@ =~= key_bytes_spec(key, app_mode));
            }
        },
        TermKey::Delete => {
            push_tilde_one(&mut v, 0x33);
            proof {
                assert(v@ =~= key_bytes_spec(key, app_mode));
            }
        },
        TermKey::Function(n) => {
            if n >= 1 && n <= 4 {
                v.push(0x1B);
                v.push(0x4F);
                v.push(0x4F + n);
                proof {
                    assert(v@ =~= key_bytes_spec(key, app_mode));
                }
            } else if n == 5 {
                push_tilde_two(&mut v, 0x31, 0x35);
                proof {
                    assert(v@ =~= key_bytes_spec(key, app_mode));
                }
            } else if n >= 6 && n <= 8 {
                push_tilde_two(&mut v, 0x31, 0x31 + n);
                proof {
                    assert(v@ =~= key_bytes_spec(key, app_mode));
                }
            } else if n >= 9 && n <= 10 {
                push_tilde_two(&mut v, 0x32, 0x27 + n);
                proof {
                    assert(v@ =~= key_bytes_spec(key, app_mode));
                }
            } else if n >= 11 && n <= 12 {
                push_tilde_two(&mut v, 0x32, 0x28 + n);
                proof {
                    assert(v@ =~= key_bytes_spec(key, app_mode));
                }
            } else {
                proof {
                    assert(v@ =~= key_bytes_spec(key, app_mode));
                }
            }
        },
    }
    v
}

fn push_arrow(v: &mut Vec<u8>, app_mode: bool, fin: u8)
    ensures
        final(v)@ == old(v)@ + arrow(app_mode, fin),
{
    v.push(0x1B);
    if app_mode {
        v.push(0x4F);
    } else {
        v.push(0x5B);
    }
    v.push(fin);
    proof {
        assert(v@ =~= old(v)@ + arrow(app_mode, fin));
    }
}

fn push_tilde_one(v: &mut Vec<u8>, digit: u8)
    ensures
        final(v)@ == old(v)@ + tilde_seq(seq![digit]),
{
    v.push(0x1B);
    v.push(0x5B);
    v.push(digit);
    v.push(0x7E);
    proof {
        assert(v@ =~= old(v)@ + tilde_seq(seq![digit]));
    }
}

fn push_tilde_two(v: &mut Vec<u8>, d1: u8, d2: u8)
    ensures
        final(v)@ == old(v)@ + tilde_seq(seq![d1, d2]),
{
    v.push(0x1B);
    v.push(0x5B);
    v.push(d1);
    v.push(d2);
    v.push(0x7E);
    proof {
        assert(v@ =~= old(v)@ + tilde_seq(seq![d1, d2]));
    }
}

/// The control byte a control-letter chord sends: the letters map to one
/// through twenty-six, except that the paste chord is left to the clipboard.
pub fn ctrl_key_byte(letter: char) -> (r: Option<u8>)
    ensures
        ('a' <= letter <= 'z' && letter != 'v') ==> r == Some((letter as u8 - 0x60) as u8),
        !('a' <= letter <= 'z') || letter == 'v' ==> r is None,
{
    let c = letter as u32;
    if c >= 0x61 && c <= 0x7A && c != 0x76 {
        proof {
            vstd::utf8::char_u32_cast(letter, letter as u32);
        }
        Some((c - 0x60) as u8)
    } else {
        proof {
            vstd::utf8::char_u32_cast(letter, letter as u32);
        }
        None
    }
}

} // verus!
