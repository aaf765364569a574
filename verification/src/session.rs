//! The per-connection protocol engine.
//!
//! A [`Session`] owns one connection's command loop as a state
//! machine.  The embedding program reads a line and hands it to
//! [`Session::on_line`]; the returned [`Step`] says what outside work
//! is owed next — query a directory, query a file, read a payload of
//! an exact size, read the next line, or close.  The filesystem facts
//! gathered for that work come back through the `*_response` methods,
//! which build the reply.  Replies accumulate in a buffer that
//! [`Session::flush`] hands out, so every response is written to the
//! peer before the next line is read.

use vstd::prelude::*;

use crate::command::{parse_command, parse_spec, Command, CmdSpec};
use crate::resolve::{display_spec, join_paths, path_display, resolve_spec, ResolvedPath};
use crate::text::{
    count_char, dec, lemma_count_char_absent, lemma_count_char_concat, lemma_dec_no_newline,
    u64_to_string,
};

verus! {

/// One directory entry, as the embedding program read it: a kind, a
/// byte length (meaningful for files only), and a name.
pub struct Entry {
    pub is_dir: bool,
    pub size: u64,
    pub name: String,
}

/// The farewell line.
pub open spec fn msg_bye() -> Seq<char> {
    "Bye nya~\n"@
}

/// The reply to an unrecognised verb.
pub open spec fn msg_unknown() -> Seq<char> {
    "ERR unknown cmd\n"@
}

/// The header line before a directory listing.
pub open spec fn msg_header() -> Seq<char> {
    "Here is the list nya:\n"@
}

/// The reply when a `list` target is missing or not a directory.
pub open spec fn msg_not_dir(shown: Seq<char>) -> Seq<char> {
    shown + " not a dir\n"@
}

/// The reply when a directory exists but cannot be read.
pub open spec fn msg_read_dir_failed() -> Seq<char> {
    "ERR read dir failed\n"@
}

/// The reply when a `get` target is missing or not a regular file.
pub open spec fn msg_no_such_file(shown: Seq<char>) -> Seq<char> {
    "no such file called "@ + shown + "\n"@
}

/// The success line sent just before a file's bytes are streamed.
pub open spec fn msg_get_ok() -> Seq<char> {
    "Get successful nya~\n"@
}

/// The reply when a file cannot be opened or written.
pub open spec fn msg_file_error() -> Seq<char> {
    "ERR file error\n"@
}

/// The reply to a `put` whose byte count is zero or fails to parse.
pub open spec fn msg_bad_size() -> Seq<char> {
    "ERR bad size\n"@
}

/// The confirmation after a completed upload.
pub open spec fn msg_put_ok() -> Seq<char> {
    "Update successful nya~\n"@
}

/// The usage block the `help` verb emits.
pub open spec fn help_text() -> Seq<char> {
    "\nCommands:\n"@ + "  list [path] - List files in directory\n"@
        + "  get path - Get file content\n"@
        + "  put path size - Put file content (size in bytes)\n"@ + "  quit - Exit the server\n"@
}

/// The listing line for one entry: `d 0 <name>` for a directory —
/// its size is reported as zero, never computed — and
/// `f <byte-count> <name>` for a file.
pub open spec fn entry_line(is_dir: bool, size: nat, name: Seq<char>) -> Seq<char> {
    if is_dir {
        "d 0 "@ + name + "\n"@
    } else {
        "f "@ + dec(size) + " "@ + name + "\n"@
    }
}

/// The listing lines for a sequence of entries, one line per entry,
/// in order.
pub open spec fn entry_lines(es: Seq<Entry>) -> Seq<char>
    decreases es.len(),
{
    if es.len() == 0 {
        Seq::empty()
    } else {
        entry_lines(es.drop_last()) + entry_line(
            es.last().is_dir,
            es.last().size as nat,
            es.last().name@,
        )
    }
}

/// A listing speaks for the directory exactly: one line per entry, in
/// order — so a listing holds as many line breaks as the directory
/// has readable entries, provided no entry name holds one itself.
pub proof fn lemma_one_line_per_entry(es: Seq<Entry>)
    requires
        forall|i: int| 0 <= i < es.len() ==> count_char(#[trigger] es[i].name@, '\n') == 0,
    ensures
        count_char(entry_lines(es), '\n') == es.len(),
    decreases es.len(),
{
    reveal_strlit("d 0 ");
    reveal_strlit("f ");
    reveal_strlit(" ");
    reveal_strlit("\n");
    if es.len() > 0 {
        lemma_one_line_per_entry(es.drop_last());
        let e = es.last();
        let nl = "\n"@;
        assert(count_char(nl, '\n') == 1) by {
            assert(nl.len() == 1);
            assert(nl.last() == '\n');
            assert(nl.drop_last() =~= Seq::<char>::empty());
            assert(count_char(Seq::<char>::empty(), '\n') == 0);
        }
        assert(es[es.len() - 1] == e);
        assert(count_char(e.name@, '\n') == 0);
        if e.is_dir {
            lemma_count_char_absent("d 0 "@, '\n');
            lemma_count_char_concat("d 0 "@, e.name@, '\n');
            lemma_count_char_concat("d 0 "@ + e.name@, nl, '\n');
        } else {
            lemma_count_char_absent("f "@, '\n');
            lemma_dec_no_newline(e.size as nat);
            lemma_count_char_absent(" "@, '\n');
            lemma_count_char_concat("f "@, dec(e.size as nat), '\n');
            lemma_count_char_concat("f "@ + dec(e.size as nat), " "@, '\n');
            lemma_count_char_concat("f "@ + dec(e.size as nat) + " "@, e.name@, '\n');
            lemma_count_char_concat("f "@ + dec(e.size as nat) + " "@ + e.name@, nl, '\n');
        }
        assert(count_char(entry_line(e.is_dir, e.size as nat, e.name@), '\n') == 1);
        lemma_count_char_concat(
            entry_lines(es.drop_last()),
            entry_line(e.is_dir, e.size as nat, e.name@),
            '\n',
        );
    }
}

/// Where a session stands between two calls.
#[derive(Clone, Copy)]
pub enum SessState {
    /// Ready for the next request line.
    Idle,
    /// A `list` was parsed; directory facts are owed.
    AwaitDir,
    /// A `get` was parsed; file facts are owed.
    AwaitFile,
    /// A `put` was parsed; the payload must be consumed in full, then
    /// the write outcome reported.
    AwaitPut,
    /// The session ended; no further line is ever processed.
    Done,
}

/// What the embedding program owes the session next.
pub enum Step {
    /// Write the flushed reply, then read the next request line.
    ReadLine,
    /// Report whether `path` is a directory and what it holds.
    QueryDir { path: ResolvedPath },
    /// Report whether `path` is a regular file that can be opened.
    QueryFile { path: ResolvedPath },
    /// Consume exactly `size` payload bytes from the input stream —
    /// whatever they hold, and even if the local write fails — then
    /// report the write outcome.
    ReadPayload { path: ResolvedPath, size: u64 },
    /// Write the flushed farewell and close the connection.
    Close,
}

/// One connection's protocol state: the root all paths resolve under,
/// the reply bytes not yet flushed, the rendering of the path of the
/// command in flight, and the machine state.
pub struct Session {
    pub root: String,
    pub pending: String,
    pub shown: String,
    pub state: SessState,
}

impl Session {
    /// A fresh session over the given root directory.
    pub fn new(root: String) -> (s: Session)
        ensures
            s.root == root,
            s.pending@ == Seq::<char>::empty(),
            s.state is Idle,
    {
        Session { root, pending: String::new(), shown: String::new(), state: SessState::Idle }
    }

    /// Whether the session still accepts request lines.
    pub fn is_open(&self) -> (r: bool)
        ensures
            r == !(self.state is Done),
    {
        match self.state {
            SessState::Done => false,
            _ => true,
        }
    }

    /// Hands out the accumulated reply and empties the buffer.
    pub fn flush(&mut self) -> (out: String)
        ensures
            out@ == old(self).pending@,
            final(self).pending@ == Seq::<char>::empty(),
            final(self).root == old(self).root,
            final(self).shown == old(self).shown,
            final(self).state == old(self).state,
    {
        let out = self.pending.clone();
        self.pending = String::new();
        out
    }

    /// Dispatches one request line.
    ///
    /// A blank line is skipped.  `quit` answers the farewell and ends
    /// the session.  `help` answers the usage block.  An unrecognised
    /// verb answers exactly one error line and asks for nothing — no
    /// payload byte is ever consumed for it.  `list` and `get` resolve
    /// their path under the root and ask for filesystem facts.  `put`
    /// with a positive byte count asks for exactly that many payload
    /// bytes; any other count is answered with an error before any
    /// payload byte is consumed.
    pub fn on_line(&mut self, line: &str) -> (step: Step)
        requires
            old(self).state is Idle,
        ensures
            final(self).root == old(self).root,
            ({
                let c = parse_spec(line@);
                &&& (c is Blank ==> final(self).pending == old(self).pending
                    && final(self).state is Idle && step is ReadLine)
                &&& (c is Quit ==> final(self).pending@ == old(self).pending@ + msg_bye()
                    && final(self).state is Done && step is Close)
                &&& (c is Help ==> final(self).pending@ == old(self).pending@ + help_text()
                    && final(self).state is Idle && step is ReadLine)
                &&& (c is Unknown ==> final(self).pending@ == old(self).pending@ + msg_unknown()
                    && final(self).state is Idle && step is ReadLine)
                &&& (c matches CmdSpec::List { path } ==> {
                    &&& final(self).pending == old(self).pending
                    &&& final(self).state is AwaitDir
                    &&& final(self).shown@ == display_spec(old(self).root@, resolve_spec(path))
                    &&& step matches Step::QueryDir { path: p } && p.base@ == old(self).root@
                        && p.segs_view() == resolve_spec(path)
                })
                &&& (c matches CmdSpec::Get { path } ==> {
                    &&& final(self).pending == old(self).pending
                    &&& final(self).state is AwaitFile
                    &&& final(self).shown@ == display_spec(old(self).root@, resolve_spec(path))
                    &&& step matches Step::QueryFile { path: p } && p.base@ == old(self).root@
                        && p.segs_view() == resolve_spec(path)
                })
                &&& (c matches CmdSpec::Put { path, size } ==> {
                    &&& (size == 0 ==> final(self).pending@ == old(self).pending@ + msg_bad_size()
                        && final(self).state is Idle && step is ReadLine)
                    &&& (size > 0 ==> {
                        &&& final(self).pending == old(self).pending
                        &&& final(self).state is AwaitPut
                        &&& step matches Step::ReadPayload { path: p, size: z }
                            && p.base@ == old(self).root@ && p.segs_view() == resolve_spec(path)
                            && z as nat == size
                    })
                })
            }),
    {
        let cmd = parse_command(line);
        match cmd {
            Command::Blank => Step::ReadLine,
            Command::Quit => {
                self.pending.append("Bye nya~\n");
                self.state = SessState::Done;
                Step::Close
            },
            Command::Help => {
                self.pending.append("\nCommands:\n");
                self.pending.append("  list [path] - List files in directory\n");
                self.pending.append("  get path - Get file content\n");
                self.pending.append("  put path size - Put file content (size in bytes)\n");
                self.pending.append("  quit - Exit the server\n");
                Step::ReadLine
            },
            Command::Unknown => {
                self.pending.append("ERR unknown cmd\n");
                Step::ReadLine
            },
            Command::List { path } => {
                let p = join_paths(self.root.as_str(), path.as_str());
                self.shown = path_display(&p);
                self.state = SessState::AwaitDir;
                Step::QueryDir { path: p }
            },
            Command::Get { path } => {
                let p = join_paths(self.root.as_str(), path.as_str());
                self.shown = path_display(&p);
                self.state = SessState::AwaitFile;
                Step::QueryFile { path: p }
            },
            Command::Put { path, size } => {
                if size == 0 {
                    self.pending.append("ERR bad size\n");
                    Step::ReadLine
                } else {
                    let p = join_paths(self.root.as_str(), path.as_str());
                    self.shown = path_display(&p);
                    self.state = SessState::AwaitPut;
                    Step::ReadPayload { path: p, size }
                }
            },
        }
    }

    /// Answers a `list` from what the filesystem said: an error line
    /// where the target is not a directory, otherwise the header and
    /// one line per entry — kind, size (zero for directories, the
    /// exact byte length for files), name — or a read-failure line
    /// where the directory could not be read.
    pub fn list_response(&mut self, is_dir: bool, entries: Option<&Vec<Entry>>) -> (step: Step)
        requires
            old(self).state is AwaitDir,
        ensures
            final(self).root == old(self).root,
            final(self).state is Idle,
            step is ReadLine,
            !is_dir ==> final(self).pending@ == old(self).pending@
                + msg_not_dir(old(self).shown@),
            is_dir && entries is None ==> final(self).pending@ == old(self).pending@ + msg_header()
                + msg_read_dir_failed(),
            is_dir ==> (entries matches Some(es) ==> final(self).pending@ == old(self).pending@
                + msg_header() + entry_lines(es@)),
    {
        if !is_dir {
            self.pending.append(self.shown.as_str());
            self.pending.append(" not a dir\n");
            self.state = SessState::Idle;
            return Step::ReadLine;
        }
        self.pending.append("Here is the list nya:\n");
        match entries {
            None => {
                self.pending.append("ERR read dir failed\n");
            },
            Some(es) => {
                let ghost mid = self.pending@;
                let mut k: usize = 0;
                proof {
                    assert(entry_lines(es@.subrange(0, 0)) == Seq::<char>::empty());
                    assert(mid + entry_lines(es@.subrange(0, 0)) =~= mid);
                }
                while k < es.len()
                    invariant
                        k <= es@.len(),
                        self.pending@ == mid + entry_lines(es@.subrange(0, k as int)),
                        self.root == old(self).root,
                        self.shown == old(self).shown,
                        self.state == old(self).state,
                    decreases es@.len() - k,
                {
                    let e = &es[k];
                    if e.is_dir {
                        self.pending.append("d 0 ");
                        self.pending.append(e.name.as_str());
                        self.pending.append("\n");
                    } else {
                        self.pending.append("f ");
                        let num = u64_to_string(e.size);
                        self.pending.append(num.as_str());
                        self.pending.append(" ");
                        self.pending.append(e.name.as_str());
                        self.pending.append("\n");
                    }
                    proof {
                        let pre = es@.subrange(0, k as int);
                        let cur = es@.subrange(0, k + 1);
                        assert(cur.drop_last() =~= pre);
                        assert(cur.last() == es@[k as int]);
                        assert(self.pending@ =~= mid + entry_lines(cur));
                    }
                    k += 1;
                }
                proof {
                    assert(es@.subrange(0, es@.len() as int) =~= es@);
                }
            },
        }
        self.state = SessState::Idle;
        Step::ReadLine
    }

    /// Answers a `get` from what the filesystem said, and tells the
    /// embedding program whether to stream the file's raw bytes,
    /// verbatim and with no length marker, right after the flushed
    /// success line.
    pub fn get_response(&mut self, found: bool, opened: bool) -> (stream: bool)
        requires
            old(self).state is AwaitFile,
        ensures
            final(self).root == old(self).root,
            final(self).state is Idle,
            !found ==> final(self).pending@ == old(self).pending@
                + msg_no_such_file(old(self).shown@) && !stream,
            found && !opened ==> final(self).pending@ == old(self).pending@ + msg_file_error()
                && !stream,
            found && opened ==> final(self).pending@ == old(self).pending@ + msg_get_ok()
                && stream,
    {
        self.state = SessState::Idle;
        if !found {
            self.pending.append("no such file called ");
            self.pending.append(self.shown.as_str());
            self.pending.append("\n");
            false
        } else if !opened {
            self.pending.append("ERR file error\n");
            false
        } else {
            self.pending.append("Get successful nya~\n");
            true
        }
    }

    /// Answers a `put` once the payload — exactly the declared number
    /// of bytes — has been consumed and the write attempted.
    pub fn put_response(&mut self, write_ok: bool) -> (step: Step)
        requires
            old(self).state is AwaitPut,
        ensures
            final(self).root == old(self).root,
            final(self).state is Idle,
            step is ReadLine,
            write_ok ==> final(self).pending@ == old(self).pending@ + msg_put_ok(),
            !write_ok ==> final(self).pending@ == old(self).pending@ + msg_file_error(),
    {
        self.state = SessState::Idle;
        if write_ok {
            self.pending.append("Update successful nya~\n");
        } else {
            self.pending.append("ERR file error\n");
        }
        Step::ReadLine
    }
}

} // verus!
