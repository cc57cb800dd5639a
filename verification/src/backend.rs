//! Commands, the programs that run them, and what a backend reports.

use vstd::prelude::*;
use vstd::string::*;

use crate::fields::{parts_between, split_on};
use crate::model::{OwnershipProof, SessionId, TmuxSessionId};
use crate::quote::{posix_quote, quoted_word, quoted_word_reads_back, shell_words, QuoteError};
use crate::text::{chars_of, same_text, views};

verus! {

/// An executable and its already-separated argument vector.
#[derive(Debug, PartialEq, Eq)]
pub struct CommandSpec {
    pub program: String,
    pub args: Vec<String>,
}

/// The contents of a [`CommandSpec`].
#[verifier::ext_equal]
pub struct CommandView {
    pub program: Seq<char>,
    pub args: Seq<Seq<char>>,
}

impl View for CommandSpec {
    type V = CommandView;

    open spec fn view(&self) -> CommandView {
        CommandView { program: self.program@, args: views(self.args@) }
    }
}

/// A copy of each string.
pub fn copy_strings(texts: &Vec<String>) -> (copy: Vec<String>)
    ensures
        copy@ == texts@,
{
    let mut copy: Vec<String> = Vec::new();
    let mut i: usize = 0;
    while i < texts.len()
        invariant
            i <= texts@.len(),
            copy@ == texts@.take(i as int),
        decreases texts.len() - i,
    {
        copy.push(texts[i].clone());
        i += 1;
        assert(texts@.take(i as int) =~= texts@.take(i - 1).push(texts@[i - 1]));
    }
    assert(texts@.take(i as int) =~= texts@);
    copy
}

impl Clone for CommandSpec {
    fn clone(&self) -> (copy: Self)
        ensures
            copy@ == self@,
    {
        CommandSpec { program: self.program.clone(), args: copy_strings(&self.args) }
    }
}

/// A command line: each word quoted, with a space before each argument.
pub open spec fn command_line(command: CommandView) -> Seq<char>
    decreases command.args.len(),
{
    if command.args.len() == 0 {
        quoted_word(command.program)
    } else {
        command_line(CommandView { args: command.args.drop_last(), ..command }) + seq![' ']
            + quoted_word(command.args.last())
    }
}

/// A NUL in the program or an argument, which no shell command can hold.
pub open spec fn holds_nul(command: CommandView) -> bool {
    ||| command.program.contains('\0')
    ||| exists|i: int| 0 <= i < command.args.len() && (#[trigger] command.args[i]).contains('\0')
}

/// The program and its arguments.
pub open spec fn argument_vector(command: CommandView) -> Seq<Seq<char>> {
    seq![command.program] + command.args
}

/// A shell reads the words of a command line up to the last one, which the
/// text behind it continues.
proof fn lemma_line_reads_back(command: CommandView, tail: Seq<char>)
    ensures
        shell_words(command_line(command) + tail, false, None) == argument_vector(
            command,
        ).drop_last() + shell_words(tail, false, Some(argument_vector(command).last())),
    decreases command.args.len(),
{
    let words = argument_vector(command);
    if command.args.len() == 0 {
        quoted_word_reads_back(command.program, tail);
        assert(words.drop_last() =~= Seq::empty());
        assert(words.last() == command.program);
        assert(words.drop_last() + shell_words(tail, false, Some(words.last())) =~= shell_words(
            tail,
            false,
            Some(words.last()),
        ));
    } else {
        let front = CommandView { args: command.args.drop_last(), ..command };
        let last = command.args.last();
        let rest = quoted_word(last) + tail;
        let behind = seq![' '] + rest;
        lemma_line_reads_back(front, behind);
        quoted_word_reads_back(last, tail);
        assert(command_line(command) + tail =~= command_line(front) + behind);
        assert(behind[0] == ' ');
        assert(behind.drop_first() =~= rest);
        let before = argument_vector(front);
        assert(shell_words(behind, false, Some(before.last())) == seq![before.last()] + shell_words(
            rest,
            false,
            None,
        ));
        assert(words.drop_last() =~= before);
        assert(before =~= before.drop_last() + seq![before.last()]);
        assert(words.last() == last);
        assert(before.drop_last() + (seq![before.last()] + shell_words(tail, false, Some(last)))
            =~= words.drop_last() + shell_words(tail, false, Some(last)));
    }
}

/// A shell reads a command line as exactly the program and its arguments.
pub proof fn command_line_holds_exactly_the_arguments(command: CommandView)
    ensures
        shell_words(command_line(command), false, None) == argument_vector(command),
{
    lemma_line_reads_back(command, Seq::empty());
    assert(command_line(command) + Seq::<char>::empty() =~= command_line(command));
    let words = argument_vector(command);
    assert(words.drop_last() + seq![words.last()] =~= words);
}

impl CommandSpec {
    /// The command of a program with its arguments.
    pub fn new(program: String, args: Vec<String>) -> (command: Self)
        ensures
            command.program == program,
            command.args == args,
    {
        CommandSpec { program, args }
    }

    /// Produces a shell-safe command line containing exactly this argv.
    pub fn posix_command_line(&self) -> (r: Result<String, QuoteError>)
        ensures
            r is Err <==> holds_nul(self@),
            r is Ok ==> r->Ok_0@ == command_line(self@),
    {
        let mut line = match posix_quote(self.program.as_str()) {
            Ok(word) => word,
            Err(error) => {
                return Err(error);
            },
        };
        let ghost all = self@.args;
        let mut i: usize = 0;
        assert(all.take(0) =~= Seq::empty());
        while i < self.args.len()
            invariant
                i <= self.args@.len(),
                all == views(self.args@),
                !self@.program.contains('\0'),
                forall|j: int| 0 <= j < i ==> !(#[trigger] all[j]).contains('\0'),
                line@ == command_line(
                    CommandView { program: self@.program, args: all.take(i as int) },
                ),
            decreases self.args.len() - i,
        {
            assert(all.take(i + 1).drop_last() =~= all.take(i as int));
            assert(all.take(i + 1).last() == self.args@[i as int]@);
            match posix_quote(self.args[i].as_str()) {
                Ok(word) => {
                    let ghost before = line@;
                    line.push(' ');
                    line.append(word.as_str());
                    assert(line@ =~= before + seq![' '] + word@);
                },
                Err(error) => {
                    assert(self@.args[i as int].contains('\0'));
                    return Err(error);
                },
            }
            i += 1;
        }
        assert(all.take(i as int) =~= all);
        Ok(line)
    }
}

/// Process locations used to invoke OpenSSH and local tmux.
#[derive(Debug, PartialEq, Eq)]
pub struct ProcessBinaries {
    ssh: String,
    tmux: String,
}

/// The contents of a [`ProcessBinaries`].
pub struct BinariesView {
    pub ssh: Seq<char>,
    pub tmux: Seq<char>,
}

impl View for ProcessBinaries {
    type V = BinariesView;

    closed spec fn view(&self) -> BinariesView {
        BinariesView { ssh: self.ssh@, tmux: self.tmux@ }
    }
}

impl Clone for ProcessBinaries {
    fn clone(&self) -> (copy: Self)
        ensures
            copy == *self,
    {
        ProcessBinaries { ssh: self.ssh.clone(), tmux: self.tmux.clone() }
    }
}

impl ProcessBinaries {
    /// The programs at their resolved locations.
    pub fn new(ssh: String, tmux: String) -> (binaries: Self)
        ensures
            binaries@ == (BinariesView { ssh: ssh@, tmux: tmux@ }),
    {
        ProcessBinaries { ssh, tmux }
    }

    /// The location of OpenSSH.
    pub fn ssh(&self) -> (path: &str)
        ensures
            path@ == self@.ssh,
    {
        self.ssh.as_str()
    }

    /// The location of tmux.
    pub fn tmux(&self) -> (path: &str)
        ensures
            path@ == self@.tmux,
    {
        self.tmux.as_str()
    }
}

/// The parts of a text between slashes.
pub open spec fn slash_parts(text: Seq<char>) -> Seq<Seq<char>> {
    parts_between(text, '/')
}

/// The parts of `text` between slashes.
pub fn split_slashes(text: &str) -> (parts: Vec<String>)
    ensures
        views(parts@) == slash_parts(text@),
        parts@.len() > 0,
{
    split_on(text, '/')
}

/// The number of parts that name something: not empty and not `.`.
pub open spec fn named_parts(parts: Seq<Seq<char>>) -> nat
    decreases parts.len(),
{
    if parts.len() == 0 {
        0
    } else {
        named_parts(parts.drop_last()) + if parts.last().len() == 0 || parts.last() == "."@ {
            0nat
        } else {
            1nat
        }
    }
}

/// A program given by its name alone, which is looked up in directories.
pub open spec fn bare_program(program: Seq<char>) -> bool {
    let parts = slash_parts(program);
    &&& parts[0].len() > 0
    &&& parts[0] != "."@
    &&& parts[0] != ".."@
    &&& named_parts(parts) == 1
}

/// Whether `program` is given by its name alone.
fn is_bare_program(program: &str) -> (r: bool)
    ensures
        r == bare_program(program@),
{
    let parts = split_slashes(program);
    let ghost all = slash_parts(program@);
    let first = parts[0].as_str();
    assert(first@ == all[0]);
    if first.is_empty() || same_text(first, ".") || same_text(first, "..") {
        return false;
    }
    let mut named: usize = 0;
    let mut i: usize = 0;
    assert(all.take(0) =~= Seq::empty());
    while i < parts.len()
        invariant
            i <= parts@.len(),
            all == views(parts@),
            named <= i,
            named == named_parts(all.take(i as int)),
        decreases parts.len() - i,
    {
        let part = parts[i].as_str();
        assert(all.take(i + 1).drop_last() =~= all.take(i as int));
        assert(all.take(i + 1).last() == part@);
        if !part.is_empty() && !same_text(part, ".") {
            named += 1;
        }
        i += 1;
    }
    assert(all.take(i as int) =~= all);
    named == 1
}

/// A name below a directory.
pub open spec fn joined_path(directory: Seq<char>, name: Seq<char>) -> Seq<char> {
    if directory.len() == 0 || directory.last() == '/' {
        directory + name
    } else {
        directory + "/"@ + name
    }
}

/// The path of `name` below `directory`, for a name that is not absolute.
pub fn join_path(directory: &str, name: &str) -> (path: String)
    ensures
        path@ == joined_path(directory@, name@),
{
    let chars = chars_of(directory);
    if chars.len() == 0 || chars[chars.len() - 1] == '/' {
        directory.to_owned().concat(name)
    } else {
        directory.to_owned().concat("/").concat(name)
    }
}

/// An absolute path.
pub open spec fn absolute(path: Seq<char>) -> bool {
    path.len() > 0 && path[0] == '/'
}

/// Whether `path` is absolute.
pub fn is_absolute(path: &str) -> (r: bool)
    ensures
        r == absolute(path@),
{
    let chars = chars_of(path);
    chars.len() > 0 && chars[0] == '/'
}

/// The directories in which programs are looked up: the absolute ones of the
/// search path, and then the standard ones.
pub open spec fn lookup_directories(search_path: Seq<Seq<char>>) -> Seq<Seq<char>> {
    absolute_only(search_path) + seq![
        "/usr/bin"@,
        "/bin"@,
        "/opt/homebrew/bin"@,
        "/usr/local/bin"@,
    ]
}

/// The absolute ones of some paths.
pub open spec fn absolute_only(paths: Seq<Seq<char>>) -> Seq<Seq<char>>
    decreases paths.len(),
{
    if paths.len() == 0 {
        Seq::empty()
    } else {
        let front = absolute_only(paths.drop_last());
        if absolute(paths.last()) {
            front.push(paths.last())
        } else {
            front
        }
    }
}

/// Where a program may be found, in the order in which the places are tried. A
/// program that is not given by its name alone is not looked up.
pub fn executable_candidates(program: &str, search_path: &Vec<String>) -> (candidates: Vec<String>)
    ensures
        views(candidates@) == if bare_program(program@) {
            lookup_directories(views(search_path@)).map_values(
                |directory: Seq<char>| joined_path(directory, program@),
            )
        } else {
            Seq::empty()
        },
{
    let mut candidates: Vec<String> = Vec::new();
    if !is_bare_program(program) {
        assert(views(candidates@) =~= Seq::empty());
        return candidates;
    }
    let ghost all = views(search_path@);
    let ghost place = |directory: Seq<char>| joined_path(directory, program@);
    let mut i: usize = 0;
    assert(all.take(0) =~= Seq::empty());
    assert(views(candidates@) =~= absolute_only(all.take(0)).map_values(place));
    while i < search_path.len()
        invariant
            i <= search_path@.len(),
            all == views(search_path@),
            place == (|directory: Seq<char>| joined_path(directory, program@)),
            views(candidates@) == absolute_only(all.take(i as int)).map_values(place),
        decreases search_path.len() - i,
    {
        assert(all.take(i + 1).drop_last() =~= all.take(i as int));
        assert(all.take(i + 1).last() == search_path@[i as int]@);
        if is_absolute(search_path[i].as_str()) {
            let ghost before = candidates@;
            let path = join_path(search_path[i].as_str(), program);
            let ghost shown = path@;
            candidates.push(path);
            assert(views(candidates@) =~= views(before).push(shown));
            assert(absolute_only(all.take(i + 1)).map_values(place) =~= absolute_only(
                all.take(i as int),
            ).map_values(place).push(shown));
        }
        i += 1;
    }
    assert(all.take(i as int) =~= all);
    let ghost searched = views(candidates@);
    candidates.push(join_path("/usr/bin", program));
    candidates.push(join_path("/bin", program));
    candidates.push(join_path("/opt/homebrew/bin", program));
    candidates.push(join_path("/usr/local/bin", program));
    proof {
        let standard = seq![
            place("/usr/bin"@),
            place("/bin"@),
            place("/opt/homebrew/bin"@),
            place("/usr/local/bin"@),
        ];
        assert(views(candidates@) =~= searched + standard);
        assert(lookup_directories(all).map_values(place) =~= searched + standard);
    }
    candidates
}

/// The location of a program: the first candidate that is executable, or the
/// program as it was given.
pub fn resolve_executable(program: String, candidates: &Vec<String>, executable: &Vec<bool>) -> (path:
    String)
    requires
        candidates@.len() == executable@.len(),
    ensures
        path@ == if exists|i: int| 0 <= i < executable@.len() && executable@[i] {
            let first = choose|i: int|
                0 <= i < executable@.len() && executable@[i] && forall|j: int|
                    0 <= j < i ==> !executable@[j];
            candidates@[first]@
        } else {
            program@
        },
{
    let mut i: usize = 0;
    while i < executable.len()
        invariant
            i <= executable@.len(),
            candidates@.len() == executable@.len(),
            forall|j: int| 0 <= j < i ==> !executable@[j],
        decreases executable.len() - i,
    {
        if executable[i] {
            proof {
                let first = choose|i: int|
                    0 <= i < executable@.len() && executable@[i] && forall|j: int|
                        0 <= j < i ==> !executable@[j];
                assert(0 <= i < executable@.len() && executable@[i as int] && forall|j: int|
                    0 <= j < i ==> !executable@[j]);
                assert(first == i);
            }
            return candidates[i].clone();
        }
        i += 1;
    }
    program
}

/// What is needed to launch a workload.
#[derive(Debug, PartialEq, Eq)]
pub struct LaunchSpec {
    pub id: SessionId,
    pub ownership_proof: OwnershipProof,
    pub directory: String,
    pub command: String,
}

/// What a backend reports of a workload.
#[derive(Clone, Copy, Debug, PartialEq, Eq, Structural)]
pub enum WorkloadState {
    Missing,
    Running { identity: TmuxSessionId, attached: u32 },
    /// The command has exited, and its pane still holds the exit status.
    Ended { identity: TmuxSessionId, exit_status: Option<i32> },
    Unknown,
}

} // verus!
