//! The shell's command line: what counts as a command, and which one a
//! line of input names.

use vstd::prelude::*;
use crate::files::bytes_eq;

verus! {

/// What the shell can be told to do.
#[derive(Clone, Copy, Debug, PartialEq, Eq, Structural)]
pub enum Command {
    /// Print a greeting.
    Hello,
    /// End the shell.
    Exit,
    /// Print the file `hello.txt`.
    ReadFile,
    /// Write a line to the file `meow.txt`.
    WriteFile,
    /// Anything else.
    Unknown,
}

/// Blank, tab, line feed, vertical tab, form feed or carriage return.
pub open spec fn is_space(b: u8) -> bool {
    b == 32 || (9 <= b && b <= 13)
}

/// `line` without the white space at its start.
pub open spec fn trim_start(line: Seq<u8>) -> Seq<u8>
    decreases line.len(),
{
    if line.len() > 0 && is_space(line[0]) {
        trim_start(line.drop_first())
    } else {
        line
    }
}

/// `line` without the white space at its end.
pub open spec fn trim_end(line: Seq<u8>) -> Seq<u8>
    decreases line.len(),
{
    if line.len() > 0 && is_space(line.last()) {
        trim_end(line.drop_last())
    } else {
        line
    }
}

/// `line` without the white space at either end.
pub open spec fn trimmed(line: Seq<u8>) -> Seq<u8> {
    trim_end(trim_start(line))
}

/// The command that the word `word` names.
pub open spec fn command_of(word: Seq<u8>) -> Command {
    if word == seq![104u8, 101u8, 108u8, 108u8, 111u8] {
        Command::Hello
    } else if word == seq![101u8, 120u8, 105u8, 116u8] {
        Command::Exit
    } else if word == seq![114u8, 101u8, 97u8, 100u8, 102u8, 105u8, 108u8, 101u8] {
        Command::ReadFile
    } else if word == seq![119u8, 114u8, 105u8, 116u8, 101u8, 102u8, 105u8, 108u8, 101u8] {
        Command::WriteFile
    } else {
        Command::Unknown
    }
}

fn space(b: u8) -> (r: bool)
    ensures
        r == is_space(b),
{
    b == 32 || (9 <= b && b <= 13)
}

/// The bytes of `line` between the white space at its two ends.
pub fn trim(line: &Vec<u8>) -> (word: Vec<u8>)
    ensures
        word@ == trimmed(line@),
{
    let n: usize = line.len();
    let mut i: usize = 0;
    assert(line@.subrange(0, n as int) =~= line@);
    while i < n && space(line[i])
        invariant
            i <= n,
            n == line.len(),
            trim_start(line@) == trim_start(line@.subrange(i as int, n as int)),
        decreases n - i,
    {
        assert(line@.subrange(i as int, n as int).drop_first() =~= line@.subrange(
            i as int + 1,
            n as int,
        ));
        i = i + 1;
    }
    let mut j: usize = n;
    while j > i && space(line[j - 1])
        invariant
            i <= j <= n,
            n == line.len(),
            trimmed(line@) == trim_end(line@.subrange(i as int, j as int)),
        decreases j,
    {
        assert(line@.subrange(i as int, j as int).drop_last() =~= line@.subrange(
            i as int,
            j as int - 1,
        ));
        j = j - 1;
    }
    let mut word: Vec<u8> = Vec::new();
    let mut k: usize = i;
    while k < j
        invariant
            i <= k <= j <= n,
            n == line.len(),
            word@ == line@.subrange(i as int, k as int),
        decreases j - k,
    {
        word.push(line[k]);
        assert(word@ =~= line@.subrange(i as int, k as int + 1));
        k = k + 1;
    }
    word
}

/// The command that a line of input names, white space at its ends apart.
pub fn parse_command(line: &Vec<u8>) -> (r: Command)
    ensures
        r == command_of(trimmed(line@)),
{
    let word = trim(line);
    let hello: Vec<u8> = vec![104u8, 101u8, 108u8, 108u8, 111u8];
    let exit: Vec<u8> = vec![101u8, 120u8, 105u8, 116u8];
    let readfile: Vec<u8> = vec![114u8, 101u8, 97u8, 100u8, 102u8, 105u8, 108u8, 101u8];
    let writefile: Vec<u8> = vec![119u8, 114u8, 105u8, 116u8, 101u8, 102u8, 105u8, 108u8, 101u8];
    assert(hello@ =~= seq![104u8, 101u8, 108u8, 108u8, 111u8]);
    assert(exit@ =~= seq![101u8, 120u8, 105u8, 116u8]);
    assert(readfile@ =~= seq![114u8, 101u8, 97u8, 100u8, 102u8, 105u8, 108u8, 101u8]);
    assert(writefile@ =~= seq![119u8, 114u8, 105u8, 116u8, 101u8, 102u8, 105u8, 108u8, 101u8]);
    if bytes_eq(&word, &hello) {
        Command::Hello
    } else if bytes_eq(&word, &exit) {
        Command::Exit
    } else if bytes_eq(&word, &readfile) {
        Command::ReadFile
    } else if bytes_eq(&word, &writefile) {
        Command::WriteFile
    } else {
        Command::Unknown
    }
}

/// Index of the first zero byte of `buf`, where text that ends with one
/// stops.
pub fn until_nul(buf: &Vec<u8>) -> (r: Option<usize>)
    ensures
        r is Some ==> r->0 < buf.len() && buf[r->0 as int] == 0 && forall|k: int|
            0 <= k < r->0 ==> buf[k] != 0,
        r is None ==> forall|k: int| 0 <= k < buf.len() ==> buf[k] != 0,
{
    let mut i: usize = 0;
    while i < buf.len()
        invariant
            i <= buf.len(),
            forall|k: int| 0 <= k < i ==> buf[k] != 0,
        decreases buf.len() - i,
    {
        if buf[i] == 0 {
            return Some(i);
        }
        i = i + 1;
    }
    None
}

} // verus!
