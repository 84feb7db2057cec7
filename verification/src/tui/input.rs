use vstd::prelude::*;

use crate::tui::UiCommand;

verus! {

/// The terminal escape sequences that move the cursor, with their commands.
pub open spec fn escape_commands() -> Seq<(Seq<u8>, UiCommand)> {
    seq![
        (seq![0x1bu8, 0x5b, 0x41], UiCommand::Up),
        (seq![0x1bu8, 0x5b, 0x42], UiCommand::Down),
        (seq![0x1bu8, 0x5b, 0x35, 0x7e], UiCommand::PageUp),
        (seq![0x1bu8, 0x5b, 0x36, 0x7e], UiCommand::PageDown),
        (seq![0x1bu8, 0x5b, 0x48], UiCommand::Home),
        (seq![0x1bu8, 0x5b, 0x31, 0x7e], UiCommand::Home),
        (seq![0x1bu8, 0x4f, 0x48], UiCommand::Home),
        (seq![0x1bu8, 0x5b, 0x46], UiCommand::End),
        (seq![0x1bu8, 0x5b, 0x34, 0x7e], UiCommand::End),
        (seq![0x1bu8, 0x4f, 0x46], UiCommand::End),
    ]
}

/// The command of the first table entry whose sequence is exactly `s`.
pub open spec fn first_escape(s: Seq<u8>, k: int) -> Option<UiCommand>
    decreases 10 - k,
{
    if k < 0 || k >= 10 {
        None
    } else if escape_commands()[k].0 == s {
        Some(escape_commands()[k].1)
    } else {
        first_escape(s, k + 1)
    }
}

/// The command an escape sequence stands for.
pub open spec fn spec_escape_to_command(s: Seq<u8>) -> Option<UiCommand> {
    first_escape(s, 0)
}

/// Whether `s` starts some escape sequence of the table.
pub open spec fn spec_is_escape_prefix(s: Seq<u8>) -> bool {
    exists|k: int|
        0 <= k < 10 && s.len() <= (#[trigger] escape_commands()[k]).0.len() && escape_commands()[k].0.take(
            s.len() as int,
        ) == s
}

fn escape_entry(k: usize) -> (r: (Vec<u8>, UiCommand))
    requires
        k < 10,
    ensures
        r.0@ == escape_commands()[k as int].0,
        r.1 == escape_commands()[k as int].1,
{
    let (bytes, command): (Vec<u8>, UiCommand) = match k {
        0 => (vec![0x1b, 0x5b, 0x41], UiCommand::Up),
        1 => (vec![0x1b, 0x5b, 0x42], UiCommand::Down),
        2 => (vec![0x1b, 0x5b, 0x35, 0x7e], UiCommand::PageUp),
        3 => (vec![0x1b, 0x5b, 0x36, 0x7e], UiCommand::PageDown),
        4 => (vec![0x1b, 0x5b, 0x48], UiCommand::Home),
        5 => (vec![0x1b, 0x5b, 0x31, 0x7e], UiCommand::Home),
        6 => (vec![0x1b, 0x4f, 0x48], UiCommand::Home),
        7 => (vec![0x1b, 0x5b, 0x46], UiCommand::End),
        8 => (vec![0x1b, 0x5b, 0x34, 0x7e], UiCommand::End),
        _ => (vec![0x1b, 0x4f, 0x46], UiCommand::End),
    };
    assert(bytes@ =~= escape_commands()[k as int].0);
    (bytes, command)
}

fn bytes_eq(a: &[u8], b: &[u8]) -> (r: bool)
    ensures
        r == (a@ == b@),
{
    if a.len() != b.len() {
        return false;
    }
    let mut i: usize = 0;
    while i < a.len()
        invariant
            a@.len() == b@.len(),
            i <= a@.len(),
            forall|j: int| 0 <= j < i ==> a@[j] == b@[j],
        decreases a@.len() - i,
    {
        if a[i] != b[i] {
            return false;
        }
        i = i + 1;
    }
    assert(a@ =~= b@);
    true
}

fn starts_with(whole: &[u8], prefix: &[u8]) -> (r: bool)
    ensures
        r == (prefix@.len() <= whole@.len() && whole@.take(prefix@.len() as int) == prefix@),
{
    if prefix.len() > whole.len() {
        return false;
    }
    let mut i: usize = 0;
    while i < prefix.len()
        invariant
            prefix@.len() <= whole@.len(),
            i <= prefix@.len(),
            forall|j: int| 0 <= j < i ==> whole@[j] == prefix@[j],
        decreases prefix@.len() - i,
    {
        if whole[i] != prefix[i] {
            assert(whole@.take(prefix@.len() as int)[i as int] != prefix@[i as int]);
            return false;
        }
        i = i + 1;
    }
    assert(whole@.take(prefix@.len() as int) =~= prefix@);
    true
}

/// The command an escape sequence stands for, if any.
pub fn escape_to_command(sequence: &[u8]) -> (r: Option<UiCommand>)
    ensures
        r == spec_escape_to_command(sequence@),
{
    let mut k: usize = 0;
    while k < 10
        invariant
            k <= 10,
            spec_escape_to_command(sequence@) == first_escape(sequence@, k as int),
        decreases 10 - k,
    {
        let (bytes, command) = escape_entry(k);
        if bytes_eq(bytes.as_slice(), sequence) {
            return Some(command);
        }
        k = k + 1;
    }
    None
}

/// Whether the bytes so far may still become an escape sequence of the table.
pub fn is_escape_prefix(sequence: &[u8]) -> (r: bool)
    ensures
        r == spec_is_escape_prefix(sequence@),
{
    let mut k: usize = 0;
    while k < 10
        invariant
            k <= 10,
            forall|j: int|
                0 <= j < k ==> !(sequence@.len() <= (#[trigger] escape_commands()[j]).0.len()
                    && escape_commands()[j].0.take(sequence@.len() as int) == sequence@),
        decreases 10 - k,
    {
        let (bytes, _) = escape_entry(k);
        if starts_with(bytes.as_slice(), sequence) {
            assert(sequence@.len() <= escape_commands()[k as int].0.len() && escape_commands()[k as int].0.take(
                sequence@.len() as int,
            ) == sequence@);
            return true;
        }
        k = k + 1;
    }
    false
}

/// The command a single key byte stands for: `q` or Ctrl-C quits, space
/// toggles, `c` clears, Tab moves to the next pane.
pub open spec fn spec_key_command(byte: u8) -> Option<UiCommand> {
    if byte == 0x71 || byte == 0x03 {
        Some(UiCommand::Quit)
    } else if byte == 0x20 {
        Some(UiCommand::Space)
    } else if byte == 0x63 {
        Some(UiCommand::Clear)
    } else if byte == 0x09 {
        Some(UiCommand::NextPane)
    } else {
        None
    }
}

/// Turns terminal input bytes into commands, one byte at a time, holding a
/// partial escape sequence between bytes.
#[derive(Debug, Clone, PartialEq, Eq)]
pub struct KeyParser {
    escape: Vec<u8>,
}

impl KeyParser {
    /// The partial escape sequence held.
    pub closed spec fn pending(&self) -> Seq<u8> {
        self.escape@
    }

    /// A parser holding nothing.
    pub fn new() -> (r: KeyParser)
        ensures
            r.pending() == Seq::<u8>::empty(),
    {
        KeyParser { escape: Vec::new() }
    }

    /// Feeds one byte. Outside an escape sequence a byte is a key command or
    /// nothing, and ESC starts a sequence. Inside one, a completed sequence
    /// gives its command; a byte that cannot continue any sequence drops it.
    pub fn push(&mut self, byte: u8) -> (r: Option<UiCommand>)
        ensures
            old(self).pending().len() == 0 ==> {
                &&& r == (if byte == 0x1b {
                    None
                } else {
                    spec_key_command(byte)
                })
                &&& final(self).pending() == (if byte == 0x1b {
                    seq![0x1bu8]
                } else {
                    Seq::<u8>::empty()
                })
            },
            old(self).pending().len() > 0 ==> {
                let s = old(self).pending().push(byte);
                &&& r == spec_escape_to_command(s)
                &&& final(self).pending() == (if r is None && spec_is_escape_prefix(s) {
                    s
                } else {
                    Seq::<u8>::empty()
                })
            },
    {
        if self.escape.len() == 0 {
            if byte == 0x1b {
                self.escape.push(byte);
                assert(self.escape@ =~= seq![0x1bu8]);
                return None;
            }
            return if byte == 0x71 || byte == 0x03 {
                Some(UiCommand::Quit)
            } else if byte == 0x20 {
                Some(UiCommand::Space)
            } else if byte == 0x63 {
                Some(UiCommand::Clear)
            } else if byte == 0x09 {
                Some(UiCommand::NextPane)
            } else {
                None
            };
        }
        self.escape.push(byte);
        if let Some(command) = escape_to_command(self.escape.as_slice()) {
            self.escape = Vec::new();
            return Some(command);
        }
        if !is_escape_prefix(self.escape.as_slice()) {
            self.escape = Vec::new();
        }
        None
    }
}

} // verus!
