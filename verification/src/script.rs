//! What the command-line client decides around its commands: running
//! script commands (which are allowed, and the text `run-shell` gets), the
//! bytes `send-keys` sends, bounding captured shell output, recognising
//! connection errors, and the JSON form of list output.

use vstd::prelude::*;
use vstd::string::*;
use crate::cli::{cmd_res, parse_args_spec, script_view, Command, CommandView, ScriptCommand};
use crate::git::has_prefix;
use crate::json::{json_bool, json_bool_spec, json_string, json_string_spec, json_u64_or_string, json_u64_or_string_spec};
use crate::protocol::views;
use crate::text::{chars_of, contains_seq, is_space, str_eq, string_from_chars, trim, trim_start};
use crate::wire::concat_str;

verus! {

/// The most bytes of a stream of `run-shell` output that are kept.
pub const MAX_RUN_SHELL_OUTPUT_BYTES: usize = 64 * 1024;

/// Whether an error is the one a server gives for creating the default
/// session when it already exists.
pub fn is_duplicate_default_create_error(error: &str) -> (r: bool)
    ensures
        r == (error@ == "session already exists; use dmux attach -t default"@),
{
    str_eq(error, "session already exists; use dmux attach -t default")
}

fn begins_with(s: &[char], prefix: &str) -> (r: bool)
    ensures
        r == has_prefix(s@, prefix@),
{
    let p = chars_of(prefix);
    if p.len() > s.len() {
        return false;
    }
    let mut i: usize = 0;
    while i < p.len()
        invariant
            p.len() <= s.len(),
            p@ == prefix@,
            i <= p.len(),
            forall|j: int| 0 <= j < i ==> s@[j] == p@[j],
        decreases p.len() - i,
    {
        if s[i] != p[i] {
            assert(s@.take(p.len() as int)[i as int] != p@[i as int]);
            return false;
        }
        i = i + 1;
    }
    assert(s@.take(p.len() as int) =~= p@);
    true
}

/// Whether a connection error says that the socket does not exist.
pub fn is_missing_socket_connect_error(error: &str) -> (r: bool)
    ensures
        r == (has_prefix(error@, "failed to connect to "@) && contains_seq(error@, "No such file or directory"@)),
{
    let chars = chars_of(error);
    begins_with(&chars, "failed to connect to ") && crate::text::contains_str(&chars, "No such file or directory")
}

/// Whether a connection error says that nothing listens on the socket.
pub fn is_stale_socket_connect_error(error: &str) -> (r: bool)
    ensures
        r == (has_prefix(error@, "failed to connect to "@) && contains_seq(error@, "Connection refused"@)),
{
    let chars = chars_of(error);
    begins_with(&chars, "failed to connect to ") && crate::text::contains_str(&chars, "Connection refused")
}

/// The text after a command's name in its source, for `run-shell`: the
/// source must start (after whitespace) with the name, followed by nothing
/// or by whitespace; the rest is taken as written, less leading
/// whitespace.
pub open spec fn command_tail_spec(source: Seq<char>, name: Seq<char>) -> Option<Seq<char>> {
    let s = trim_start(source);
    if has_prefix(s, name) {
        let tail = s.skip(name.len() as int);
        if tail.len() == 0 {
            Some(tail)
        } else if is_space(tail[0]) {
            Some(trim_start(tail))
        } else {
            None
        }
    } else {
        None
    }
}

/// The text after a command's name in its source.
pub fn script_command_tail(source: &str, command_name: &str) -> (r: Option<String>)
    ensures
        match command_tail_spec(source@, command_name@) {
            Some(t) => r matches Some(s) && s@ == t,
            None => r is None,
        },
{
    let chars = chars_of(source);
    let start = crate::text::trim_start_index(&chars, chars.len());
    let s = crate::text::sub_chars(&chars, start, chars.len());
    proof {
        assert(chars@.subrange(0, chars@.len() as int) =~= chars@);
        assert(s@ == trim_start(source@));
    }
    if !begins_with(&s, command_name) {
        return None;
    }
    let n = command_name.unicode_len();
    let tail = crate::text::sub_chars(&s, n, s.len());
    assert(tail@ =~= s@.skip(n as int));
    if tail.len() == 0 {
        return Some(String::new());
    }
    if crate::text::is_space_char(tail[0]) {
        let k = crate::text::trim_start_index(&tail, tail.len());
        assert(tail@.subrange(0, tail@.len() as int) =~= tail@);
        return Some(crate::text::string_from_range(&tail, k, tail.len()));
    }
    None
}

/// Why a command may not run from a script, if it may not.
pub open spec fn rejection_spec(command: CommandView) -> Option<Seq<char>> {
    match command {
        CommandView::OpenDefault => Some("the default attach command is not allowed in scripts"@),
        CommandView::Server => Some("internal server command is not allowed in scripts"@),
        CommandView::Attach { .. } => Some("attach is interactive and is not allowed in scripts"@),
        CommandView::Help { .. } => Some("help is not allowed in scripts"@),
        CommandView::New { detach, .. } => if !detach {
            Some("new would attach interactively; use new -d in scripts"@)
        } else {
            None
        },
        CommandView::Run { .. } => Some("nested run is not allowed in scripts"@),
        CommandView::SourceFile { .. } => Some("nested source-file is not allowed in scripts"@),
        _ => None,
    }
}

/// Why a command may not run from a script, if it may not.
pub fn script_command_rejection(command: &Command) -> (r: Option<&'static str>)
    ensures
        match rejection_spec(command@) {
            Some(m) => r matches Some(s) && s@ == m,
            None => r is None,
        },
{
    match command {
        Command::OpenDefault => Some("the default attach command is not allowed in scripts"),
        Command::Server => Some("internal server command is not allowed in scripts"),
        Command::Attach { .. } => Some("attach is interactive and is not allowed in scripts"),
        Command::Help { .. } => Some("help is not allowed in scripts"),
        Command::New { detach, .. } => if !*detach {
            Some("new would attach interactively; use new -d in scripts")
        } else {
            None
        },
        Command::Run { .. } => Some("nested run is not allowed in scripts"),
        Command::SourceFile { .. } => Some("nested source-file is not allowed in scripts"),
        _ => None,
    }
}

/// The command a script line stands for, or the error to report with its
/// context: `run-shell` takes the rest of its source as written; other
/// commands are parsed as `dmux` arguments; commands that attach, nest
/// scripts or serve are refused.
pub open spec fn prepare_script_spec(source: Seq<char>, argv: Seq<Seq<char>>, context: Seq<char>) -> Result<
    CommandView,
    Seq<char>,
> {
    if argv.len() == 0 {
        Err(context + ": empty command"@)
    } else {
        let name = argv[0];
        let label = context + " ("@ + name + "): "@;
        let parsed = if name == "run-shell"@ {
            match command_tail_spec(source, name) {
                Some(t) => if trim(t).len() == 0 {
                    Err(label + "run-shell requires a shell command"@)
                } else {
                    Ok(CommandView::RunShell { command: t })
                },
                None => Err(label + "run-shell requires a shell command"@),
            }
        } else {
            match parse_args_spec(seq!["dmux"@] + argv) {
                Ok(c) => Ok(c),
                Err(e) => Err(label + e),
            }
        };
        match parsed {
            Err(e) => Err(e),
            Ok(c) => match rejection_spec(c) {
                Some(reason) => Err(label + reason),
                None => Ok(c),
            },
        }
    }
}

fn label_of(context: &str, name: &str) -> (r: String)
    ensures
        r@ == context@ + " ("@ + name@ + "): "@,
{
    let a = concat_str(context, " (");
    let b = concat_str(a.as_str(), name);
    concat_str(b.as_str(), "): ")
}

/// The command a script line stands for, checked for use in a script.
pub fn prepare_script_command(command: &ScriptCommand, context: &str) -> (r: Result<Command, String>)
    ensures
        cmd_res(r) == prepare_script_spec(command.source@, views(command.argv@), context@),
{
    if command.argv.len() == 0 {
        return Err(concat_str(context, ": empty command"));
    }
    let name = command.argv[0].as_str();
    let label = label_of(context, name);
    let parsed = if str_eq(name, "run-shell") {
        match script_command_tail(command.source.as_str(), name) {
            Some(t) => {
                let tc = chars_of(t.as_str());
                if crate::text::trim_chars(&tc).len() == 0 {
                    return Err(concat_str(label.as_str(), "run-shell requires a shell command"));
                }
                Command::RunShell { command: t }
            },
            None => {
                return Err(concat_str(label.as_str(), "run-shell requires a shell command"));
            },
        }
    } else {
        let mut argv: Vec<String> = Vec::new();
        argv.push(String::from_str("dmux"));
        let mut i: usize = 0;
        while i < command.argv.len()
            invariant
                i <= command.argv.len(),
                views(argv@) =~= seq!["dmux"@] + views(command.argv@).take(i as int),
            decreases command.argv.len() - i,
        {
            let ghost before = argv@;
            argv.push(command.argv[i].clone());
            assert(views(argv@) =~= views(before).push(command.argv@[i as int]@));
            i = i + 1;
        }
        assert(views(command.argv@).take(i as int) =~= views(command.argv@));
        match crate::cli::parse_args(argv) {
            Ok(c) => c,
            Err(e) => {
                return Err(concat_str(label.as_str(), e.as_str()));
            },
        }
    };
    match script_command_rejection(&parsed) {
        Some(reason) => Err(concat_str(label.as_str(), reason)),
        None => Ok(parsed),
    }
}

/// The bytes `send-keys` sends for one key: named keys become their byte,
/// anything else is sent as its UTF-8 text.
pub open spec fn key_token_bytes(key: Seq<char>) -> Seq<u8> {
    if key == "Enter"@ {
        seq![13u8]
    } else if key == "Space"@ {
        seq![32u8]
    } else if key == "Tab"@ {
        seq![9u8]
    } else if key == "Escape"@ {
        seq![27u8]
    } else if key == "C-c"@ {
        seq![3u8]
    } else {
        vstd::utf8::encode_utf8(key)
    }
}

/// The bytes of a run of keys, one after the other.
pub open spec fn key_tokens_bytes(keys: Seq<Seq<char>>) -> Seq<u8>
    decreases keys.len(),
{
    if keys.len() == 0 {
        Seq::empty()
    } else {
        key_tokens_bytes(keys.drop_last()) + key_token_bytes(keys.last())
    }
}

/// The bytes `send-keys` sends for its keys.
pub fn encode_key_tokens(keys: &Vec<String>) -> (r: Result<Vec<u8>, String>)
    ensures
        r matches Ok(b) && b@ == key_tokens_bytes(views(keys@)),
{
    let ghost kv = views(keys@);
    let mut bytes: Vec<u8> = Vec::new();
    let mut i: usize = 0;
    while i < keys.len()
        invariant
            i <= keys.len(),
            kv == views(keys@),
            bytes@ == key_tokens_bytes(kv.take(i as int)),
        decreases keys.len() - i,
    {
        assert(kv.take(i + 1).drop_last() =~= kv.take(i as int));
        assert(kv.take(i + 1).last() == keys@[i as int]@);
        let key = keys[i].as_str();
        let ghost before = bytes@;
        if str_eq(key, "Enter") {
            bytes.push(13);
        } else if str_eq(key, "Space") {
            bytes.push(32);
        } else if str_eq(key, "Tab") {
            bytes.push(9);
        } else if str_eq(key, "Escape") {
            bytes.push(27);
        } else if str_eq(key, "C-c") {
            bytes.push(3);
        } else {
            let kc = chars_of(key);
            let kb = crate::text::utf8_bytes(&kc);
            let mut j: usize = 0;
            while j < kb.len()
                invariant
                    j <= kb.len(),
                    bytes@ == before + kb@.take(j as int),
                decreases kb.len() - j,
            {
                bytes.push(kb[j]);
                j = j + 1;
                assert(bytes@ =~= before + kb@.take(j as int));
            }
            assert(kb@.take(j as int) =~= kb@);
        }
        assert(bytes@ =~= before + key_token_bytes(keys@[i as int]@));
        i = i + 1;
    }
    assert(kv.take(i as int) =~= kv);
    Ok(bytes)
}

/// Captured output: the bytes kept and whether more were read.
#[derive(Debug, Clone, PartialEq, Eq)]
pub struct BoundedOutput {
    pub bytes: Vec<u8>,
    pub truncated: bool,
}

/// Output being read in chunks: at most `MAX_RUN_SHELL_OUTPUT_BYTES` bytes
/// are kept, and every byte read is counted (saturating).
pub struct BoundedReader {
    bytes: Vec<u8>,
    total: usize,
}

impl BoundedReader {
    /// The bytes kept so far.
    pub closed spec fn kept(&self) -> Seq<u8> {
        self.bytes@
    }

    /// The bytes read so far, saturating at the largest `usize`.
    pub closed spec fn read_count(&self) -> nat {
        self.total as nat
    }

    /// The bound holds.
    pub closed spec fn wf(&self) -> bool {
        self.bytes@.len() <= MAX_RUN_SHELL_OUTPUT_BYTES && self.bytes@.len() <= self.total
    }

    /// Nothing read yet.
    pub fn new() -> (r: Self)
        ensures
            r.wf(),
            r.kept() == Seq::<u8>::empty(),
            r.read_count() == 0,
    {
        BoundedReader { bytes: Vec::new(), total: 0 }
    }

    /// Takes in one chunk: its bytes are kept up to the bound and counted.
    pub fn absorb(&mut self, chunk: &[u8])
        requires
            old(self).wf(),
        ensures
            final(self).wf(),
            final(self).kept() == (old(self).kept() + chunk@).take(
                if old(self).kept().len() + chunk@.len() <= MAX_RUN_SHELL_OUTPUT_BYTES {
                    (old(self).kept().len() + chunk@.len()) as int
                } else {
                    MAX_RUN_SHELL_OUTPUT_BYTES as int
                },
            ),
            final(self).read_count() == if old(self).read_count() + chunk@.len() <= usize::MAX {
                old(self).read_count() + chunk@.len()
            } else {
                usize::MAX as nat
            },
    {
        let ghost start = self.bytes@;
        self.total = self.total.saturating_add(chunk.len());
        let remaining = MAX_RUN_SHELL_OUTPUT_BYTES - self.bytes.len();
        let take = if chunk.len() < remaining {
            chunk.len()
        } else {
            remaining
        };
        let ghost t = self.total;
        let mut i: usize = 0;
        while i < take
            invariant
                self.total == t,
                i <= take <= chunk.len(),
                take <= remaining,
                remaining == MAX_RUN_SHELL_OUTPUT_BYTES - start.len(),
                self.bytes@ == start + chunk@.take(i as int),
            decreases take - i,
        {
            self.bytes.push(chunk[i]);
            i = i + 1;
            assert(self.bytes@ =~= start + chunk@.take(i as int));
        }
        assert(self.bytes@ =~= (start + chunk@).take(start.len() + take));
    }

    /// The output read: the bytes kept, and whether more were read.
    pub fn finish(self) -> (r: BoundedOutput)
        ensures
            r.bytes@ == self.kept(),
            r.truncated == (self.read_count() > self.kept().len()),
    {
        let truncated = self.total > self.bytes.len();
        BoundedOutput { bytes: self.bytes, truncated }
    }
}

/// Parts joined with a separator between them.
pub open spec fn join_sep(parts: Seq<Seq<char>>, sep: Seq<char>) -> Seq<char>
    decreases parts.len(),
{
    if parts.len() == 0 {
        Seq::empty()
    } else if parts.len() == 1 {
        parts[0]
    } else {
        join_sep(parts.drop_last(), sep) + sep + parts.last()
    }
}

/// The field at position `k` of a line split at U+001F, empty when the
/// line has fewer fields.
pub open spec fn field(line: Seq<char>, k: int) -> Seq<char> {
    let parts = crate::text::split(line, '\u{1f}');
    if k < parts.len() {
        parts[k]
    } else {
        Seq::empty()
    }
}

/// The non-empty lines of a body.
pub open spec fn record_lines(lines: Seq<Seq<char>>) -> Seq<Seq<char>>
    decreases lines.len(),
{
    if lines.len() == 0 {
        Seq::empty()
    } else if lines.last().len() == 0 {
        record_lines(lines.drop_last())
    } else {
        record_lines(lines.drop_last()).push(lines.last())
    }
}

/// The kinds of list output.
#[derive(Clone, Copy, PartialEq, Eq, Structural)]
pub enum ListKind {
    Sessions,
    Panes,
    Windows,
}

/// The JSON object of one record.
pub open spec fn object_spec(kind: ListKind, line: Seq<char>) -> Seq<char> {
    match kind {
        ListKind::Sessions => "  {\"name\": "@ + json_string_spec(field(line, 0)) + ", \"windows\": "@
            + json_u64_or_string_spec(field(line, 1)) + ", \"attached_count\": "@
            + json_u64_or_string_spec(field(line, 2)) + ", \"created_at\": "@
            + json_u64_or_string_spec(field(line, 3)) + "}"@,
        ListKind::Panes => "  {\"index\": "@ + json_u64_or_string_spec(field(line, 0)) + ", \"id\": "@
            + json_u64_or_string_spec(field(line, 1)) + ", \"active\": "@ + json_bool_spec(field(line, 2))
            + ", \"zoomed\": "@ + json_bool_spec(field(line, 3)) + ", \"state\": "@ + json_string_spec(
            field(line, 4),
        ) + ", \"pid\": "@ + json_u64_or_string_spec(field(line, 5)) + ", \"exit_status\": "@
            + json_u64_or_string_spec(field(line, 6)) + ", \"exit_signal\": "@
            + json_u64_or_string_spec(field(line, 7)) + ", \"title\": "@ + json_string_spec(field(line, 8))
            + ", \"cwd\": "@ + json_string_spec(field(line, 9)) + ", \"bell\": "@ + json_bool_spec(
            field(line, 10),
        ) + ", \"activity\": "@ + json_bool_spec(field(line, 11)) + "}"@,
        ListKind::Windows => "  {\"index\": "@ + json_u64_or_string_spec(field(line, 0)) + ", \"id\": "@
            + json_u64_or_string_spec(field(line, 1)) + ", \"name\": "@ + json_string_spec(field(line, 2))
            + ", \"active\": "@ + json_bool_spec(field(line, 3)) + ", \"panes\": "@
            + json_u64_or_string_spec(field(line, 4)) + ", \"bell\": "@ + json_bool_spec(field(line, 5))
            + ", \"activity\": "@ + json_bool_spec(field(line, 6)) + "}"@,
    }
}

/// A list body as a JSON array: one object per non-empty line, or `[]`.
pub open spec fn list_json_spec(kind: ListKind, body: Seq<char>) -> Seq<char> {
    let objects = record_lines(crate::text::text_lines(body)).map_values(|l: Seq<char>| object_spec(kind, l));
    if objects.len() == 0 {
        "[]"@
    } else {
        "[\n"@ + join_sep(objects, ",\n"@) + "\n]"@
    }
}

fn field_str(parts: &Vec<Vec<char>>, k: usize) -> (r: String)
    ensures
        r@ == (if k < parts@.len() {
            parts@[k as int]@
        } else {
            Seq::<char>::empty()
        }),
{
    if k < parts.len() {
        string_from_chars(&parts[k])
    } else {
        String::new()
    }
}

fn cat(a: String, b: &str) -> (r: String)
    ensures
        r@ == a@ + b@,
{
    concat_str(a.as_str(), b)
}

#[verifier::rlimit(60)]
fn object_line(kind: ListKind, line: &Vec<char>) -> (r: String)
    ensures
        r@ == object_spec(kind, line@),
{
    let parts = crate::text::split_chars(line, '\u{1f}');
    let ghost pv = crate::text::split(line@, '\u{1f}');
    assert forall|k: int| 0 <= k < 12 implies (if k < parts@.len() {
        parts@[k]@
    } else {
        Seq::<char>::empty()
    }) == field(line@, k) by {}
    match kind {
        ListKind::Sessions => {
            let s = cat(String::from_str("  {\"name\": "), json_string(field_str(&parts, 0).as_str()).as_str());
            let s = cat(s, ", \"windows\": ");
            let s = cat(s, json_u64_or_string(field_str(&parts, 1).as_str()).as_str());
            let s = cat(s, ", \"attached_count\": ");
            let s = cat(s, json_u64_or_string(field_str(&parts, 2).as_str()).as_str());
            let s = cat(s, ", \"created_at\": ");
            let s = cat(s, json_u64_or_string(field_str(&parts, 3).as_str()).as_str());
            cat(s, "}")
        },
        ListKind::Panes => {
            let s = cat(String::from_str("  {\"index\": "), json_u64_or_string(field_str(&parts, 0).as_str()).as_str());
            let s = cat(s, ", \"id\": ");
            let s = cat(s, json_u64_or_string(field_str(&parts, 1).as_str()).as_str());
            let s = cat(s, ", \"active\": ");
            let s = cat(s, json_bool(field_str(&parts, 2).as_str()).as_str());
            let s = cat(s, ", \"zoomed\": ");
            let s = cat(s, json_bool(field_str(&parts, 3).as_str()).as_str());
            let s = cat(s, ", \"state\": ");
            let s = cat(s, json_string(field_str(&parts, 4).as_str()).as_str());
            let s = cat(s, ", \"pid\": ");
            let s = cat(s, json_u64_or_string(field_str(&parts, 5).as_str()).as_str());
            let s = cat(s, ", \"exit_status\": ");
            let s = cat(s, json_u64_or_string(field_str(&parts, 6).as_str()).as_str());
            let s = cat(s, ", \"exit_signal\": ");
            let s = cat(s, json_u64_or_string(field_str(&parts, 7).as_str()).as_str());
            let s = cat(s, ", \"title\": ");
            let s = cat(s, json_string(field_str(&parts, 8).as_str()).as_str());
            let s = cat(s, ", \"cwd\": ");
            let s = cat(s, json_string(field_str(&parts, 9).as_str()).as_str());
            let s = cat(s, ", \"bell\": ");
            let s = cat(s, json_bool(field_str(&parts, 10).as_str()).as_str());
            let s = cat(s, ", \"activity\": ");
            let s = cat(s, json_bool(field_str(&parts, 11).as_str()).as_str());
            cat(s, "}")
        },
        ListKind::Windows => {
            let s = cat(String::from_str("  {\"index\": "), json_u64_or_string(field_str(&parts, 0).as_str()).as_str());
            let s = cat(s, ", \"id\": ");
            let s = cat(s, json_u64_or_string(field_str(&parts, 1).as_str()).as_str());
            let s = cat(s, ", \"name\": ");
            let s = cat(s, json_string(field_str(&parts, 2).as_str()).as_str());
            let s = cat(s, ", \"active\": ");
            let s = cat(s, json_bool(field_str(&parts, 3).as_str()).as_str());
            let s = cat(s, ", \"panes\": ");
            let s = cat(s, json_u64_or_string(field_str(&parts, 4).as_str()).as_str());
            let s = cat(s, ", \"bell\": ");
            let s = cat(s, json_bool(field_str(&parts, 5).as_str()).as_str());
            let s = cat(s, ", \"activity\": ");
            let s = cat(s, json_bool(field_str(&parts, 6).as_str()).as_str());
            cat(s, "}")
        },
    }
}

/// Renders a list body as a JSON array of objects.
pub fn list_json(kind: ListKind, body: &str) -> (r: String)
    ensures
        r@ == list_json_spec(kind, body@),
{
    let chars = chars_of(body);
    let lines = crate::text::lines_of(&chars);
    let ghost lv = crate::text::text_lines(body@);
    let mut objects: Vec<String> = Vec::new();
    let mut i: usize = 0;
    while i < lines.len()
        invariant
            i <= lines.len() == lv.len(),
            lv == crate::text::text_lines(body@),
            forall|j: int| 0 <= j < lines@.len() ==> (#[trigger] lines@[j])@ == lv[j],
            views(objects@) == record_lines(lv.take(i as int)).map_values(|l: Seq<char>| object_spec(kind, l)),
        decreases lines.len() - i,
    {
        assert(lv.take(i + 1).drop_last() =~= lv.take(i as int));
        assert(lv.take(i + 1).last() == lines@[i as int]@);
        if lines[i].len() > 0 {
            let ghost before = objects@;
            objects.push(object_line(kind, &lines[i]));
            assert(views(objects@) =~= views(before).push(object_spec(kind, lines@[i as int]@)));
            assert(record_lines(lv.take(i + 1)).map_values(|l: Seq<char>| object_spec(kind, l)) =~= record_lines(
                lv.take(i as int),
            ).map_values(|l: Seq<char>| object_spec(kind, l)).push(object_spec(kind, lines@[i as int]@)));
        }
        i = i + 1;
    }
    assert(lv.take(i as int) =~= lv);
    if objects.len() == 0 {
        return String::from_str("[]");
    }
    let ghost ov = views(objects@);
    let mut out = String::from_str("[\n");
    let mut k: usize = 0;
    assert(ov.take(0) =~= Seq::<Seq<char>>::empty());
    while k < objects.len()
        invariant
            k <= objects.len(),
            ov == views(objects@),
            out@ == "[\n"@ + join_sep(ov.take(k as int), ",\n"@),
        decreases objects.len() - k,
    {
        assert(ov.take(k + 1).drop_last() =~= ov.take(k as int));
        assert(ov.take(k + 1).last() == objects@[k as int]@);
        if k > 0 {
            out = cat(out, ",\n");
        } else {
            assert(ov.take(1) =~= seq![objects@[0]@]);
        }
        out = cat(out, objects[k].as_str());
        assert(out@ =~= "[\n"@ + join_sep(ov.take(k + 1), ",\n"@));
        k = k + 1;
    }
    assert(ov.take(k as int) =~= ov);
    cat(out, "\n]")
}

/// The sessions of a list body as a JSON array.
pub fn list_sessions_json(body: &str) -> (r: String)
    ensures
        r@ == list_json_spec(ListKind::Sessions, body@),
{
    list_json(ListKind::Sessions, body)
}

/// The panes of a list body as a JSON array.
pub fn list_panes_json(body: &str) -> (r: String)
    ensures
        r@ == list_json_spec(ListKind::Panes, body@),
{
    list_json(ListKind::Panes, body)
}

/// The windows of a list body as a JSON array.
pub fn list_windows_json(body: &str) -> (r: String)
    ensures
        r@ == list_json_spec(ListKind::Windows, body@),
{
    list_json(ListKind::Windows, body)
}

} // verus!
