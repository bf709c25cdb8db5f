//! Values exchanged with a gateway, and the small rules that go with them.

use vstd::prelude::*;
use vstd::string::*;
use vstd::utf8::{decode_utf8, encode_utf8, is_char_boundary};
use crate::identity::{encode, hex_text, sha256, sha256_of};
use crate::text::{
    append_chars, chars_of, concat2, copy_opt, ends_with_chars, has_prefix, has_suffix, index_of_char, same_chars, same_text,
    starts_with_chars, string_of, strs, trimmed, trimmed_text, uppercase, uppercase_text,
};

verus! {

/// Most characters of output that are kept.
pub const OUTPUT_CAP: usize = 200_000;

/// Most characters of output that an event carries.
pub const OUTPUT_EVENT_TAIL: usize = 20_000;

/// Challenge sent by the gateway before the handshake.
#[derive(Clone, Debug, PartialEq, Eq)]
pub struct ConnectChallengePayload {
    pub nonce: Option<String>,
}

/// Who connects.
#[derive(Clone, Debug, PartialEq, Eq)]
pub struct ClientInfo {
    pub id: String,
    pub display_name: Option<String>,
    pub version: String,
    pub platform: String,
    pub mode: String,
    pub instance_id: Option<String>,
}

/// Shared-secret authentication.
#[derive(Clone, Debug, PartialEq, Eq)]
pub struct AuthParams {
    pub token: Option<String>,
    pub password: Option<String>,
}

/// Key-based authentication.
#[derive(Clone, Debug, PartialEq, Eq)]
pub struct DeviceParams {
    pub id: String,
    pub public_key: String,
    pub signature: String,
    pub signed_at: u64,
    pub nonce: Option<String>,
}

/// Parameters of the handshake.
#[derive(Clone, Debug, PartialEq, Eq)]
pub struct ConnectParams {
    pub min_protocol: u32,
    pub max_protocol: u32,
    pub client: ClientInfo,
    pub caps: Option<Vec<String>>,
    pub commands: Option<Vec<String>>,
    pub permissions: Option<Vec<(String, bool)>>,
    pub path_env: Option<String>,
    pub role: Option<String>,
    pub scopes: Option<Vec<String>>,
    pub device: Option<DeviceParams>,
    pub auth: Option<AuthParams>,
}

/// The gateway as it names itself.
#[derive(Clone, Debug, PartialEq, Eq)]
pub struct ServerInfo {
    pub version: String,
    pub conn_id: String,
}

/// What the gateway asks of its nodes.
#[derive(Clone, Debug, PartialEq, Eq)]
pub struct PolicyInfo {
    pub tick_interval_ms: Option<u64>,
}

/// The gateway's answer to the handshake.
#[derive(Clone, Debug, PartialEq, Eq)]
pub struct HelloOk {
    pub protocol: u32,
    pub server: ServerInfo,
    pub policy: PolicyInfo,
}

/// A command the gateway asks a node to carry out.
#[derive(Clone, Debug, PartialEq, Eq)]
pub struct NodeInvokeRequest {
    pub id: String,
    pub node_id: String,
    pub command: String,
    pub params_json: Option<String>,
    pub timeout_ms: Option<u64>,
    pub idempotency_key: Option<String>,
}

/// Parameters of a command run.
#[derive(Clone, Debug, PartialEq, Eq)]
pub struct SystemRunParams {
    pub command: Vec<String>,
    pub raw_command: Option<String>,
    pub cwd: Option<String>,
    pub env: Option<Vec<(String, String)>>,
    pub timeout_ms: Option<u64>,
    pub agent_id: Option<String>,
    pub session_key: Option<String>,
    pub approved: Option<bool>,
    pub approval_decision: Option<String>,
    pub run_id: Option<String>,
}

/// Programs to look up.
#[derive(Clone, Debug, PartialEq, Eq)]
pub struct SystemWhichParams {
    pub bins: Vec<String>,
}

/// Where the programs were found.
#[derive(Clone, Debug, PartialEq, Eq)]
pub struct SystemWhichResult {
    pub bins: Vec<(String, String)>,
}

/// One pattern of commands that run without asking.
#[derive(Clone, Debug, PartialEq, Eq)]
pub struct AllowlistEntry {
    pub pattern: String,
    pub agent_id: Option<String>,
    pub last_used_ms: Option<u64>,
    pub use_count: Option<u32>,
}

/// The approvals file.
#[derive(Clone, Debug, PartialEq, Eq)]
pub struct ExecApprovalsFile {
    pub version: Option<u32>,
    pub security: Option<String>,
    pub ask: Option<String>,
    pub allowlist: Option<Vec<AllowlistEntry>>,
    pub auto_allow_skills: Option<bool>,
}

/// The approvals file as found on disk.
#[derive(Clone, Debug, PartialEq, Eq)]
pub struct ExecApprovalsSnapshot {
    pub path: String,
    pub exists: bool,
    pub hash: String,
    pub file: ExecApprovalsFile,
}

/// A new approvals file, with the hash of the one it replaces.
#[derive(Clone, Debug, PartialEq, Eq)]
pub struct ExecApprovalsSetParams {
    pub file: ExecApprovalsFile,
    pub base_hash: Option<String>,
}

/// Why a command failed.
#[derive(Clone, Debug, PartialEq, Eq)]
pub struct InvokeError {
    pub code: String,
    pub message: String,
}

impl InvokeError {
    /// An error with a code and a message.
    pub fn new(code: &str, message: &str) -> (e: InvokeError)
        ensures
            e.code@ == code@,
            e.message@ == message@,
    {
        InvokeError { code: code.to_string(), message: message.to_string() }
    }

    /// The request was malformed.
    pub fn invalid_request(message: &str) -> (e: InvokeError)
        ensures
            e.code@ == "INVALID_REQUEST"@,
            e.message@ == message@,
    {
        InvokeError::new("INVALID_REQUEST", message)
    }

    /// The command cannot be carried out here.
    pub fn unavailable(message: &str) -> (e: InvokeError)
        ensures
            e.code@ == "UNAVAILABLE"@,
            e.message@ == message@,
    {
        InvokeError::new("UNAVAILABLE", message)
    }

    /// The command took too long.
    pub fn timeout(message: &str) -> (e: InvokeError)
        ensures
            e.code@ == "TIMEOUT"@,
            e.message@ == message@,
    {
        InvokeError::new("TIMEOUT", message)
    }
}

/// The result of a command, for the gateway.
#[derive(Clone, Debug, PartialEq, Eq)]
pub struct NodeInvokeResult {
    pub id: String,
    pub node_id: String,
    pub ok: bool,
    pub payload_json: Option<String>,
    pub error: Option<InvokeError>,
}

/// An event a node reports.
#[derive(Clone, Debug, PartialEq, Eq)]
pub struct NodeEvent {
    pub event: String,
    pub payload_json: Option<String>,
}

/// How a command run ended.
#[derive(Clone, Debug, PartialEq, Eq)]
pub struct RunResult {
    pub exit_code: Option<i32>,
    pub timed_out: bool,
    pub success: bool,
    pub stdout: String,
    pub stderr: String,
    pub error: Option<String>,
}

/// What an execution event carries.
#[derive(Clone, Debug, PartialEq, Eq)]
pub struct ExecEventPayload {
    pub session_key: String,
    pub run_id: String,
    pub host: String,
    pub command: Option<String>,
    pub exit_code: Option<i32>,
    pub timed_out: Option<bool>,
    pub success: Option<bool>,
    pub output: Option<String>,
    pub reason: Option<String>,
}

/// What a node offers.
#[derive(Clone, Debug, PartialEq, Eq)]
pub struct NodeCapabilities {
    pub node_id: String,
    pub display_name: Option<String>,
    pub platform: String,
    pub version: String,
    pub core_version: Option<String>,
    pub caps: Vec<String>,
    pub commands: Vec<String>,
    pub path_env: Option<String>,
}

/// The gateway a node is paired with.
#[derive(Clone, Debug, PartialEq, Eq)]
pub struct GatewayInfo {
    pub host: String,
    pub port: u16,
    pub tls: bool,
    pub tls_fingerprint: Option<String>,
}

/// What a node remembers of its pairing.
#[derive(Clone, Debug, PartialEq, Eq)]
pub struct PairingState {
    pub node_id: String,
    pub token: Option<String>,
    pub display_name: Option<String>,
    pub gateway: Option<GatewayInfo>,
    pub paired_at: Option<u64>,
}

/// The entries with a pattern, in order.
pub open spec fn with_pattern(list: Seq<AllowlistEntry>) -> Seq<AllowlistEntry>
    decreases list.len(),
{
    if list.len() == 0 {
        list
    } else if list.last().pattern@.len() > 0 {
        with_pattern(list.drop_last()).push(list.last())
    } else {
        with_pattern(list.drop_last())
    }
}

/// Normalizes an approvals file: a missing version becomes 1, and entries
/// without a pattern leave the allowlist.
pub fn normalize_exec_approvals(file: ExecApprovalsFile) -> (out: ExecApprovalsFile)
    ensures
        out.version == (match file.version {
            Some(v) => Some(v),
            None => Some(1u32),
        }),
        out.security == file.security,
        out.ask == file.ask,
        out.auto_allow_skills == file.auto_allow_skills,
        match file.allowlist {
            Some(list) => out.allowlist matches Some(kept) && kept@ == with_pattern(list@),
            None => out.allowlist is None,
        },
{
    let version = match file.version {
        Some(v) => Some(v),
        None => Some(1),
    };
    let allowlist = match file.allowlist {
        Some(list) => {
            let mut kept: Vec<AllowlistEntry> = Vec::new();
            let mut i: usize = 0;
            while i < list.len()
                invariant
                    i <= list.len(),
                    kept@ == with_pattern(list@.take(i as int)),
                decreases list.len() - i,
            {
                assert(list@.take(i + 1).drop_last() =~= list@.take(i as int));
                assert(list@.take(i + 1).last() == list@[i as int]);
                if list[i].pattern.as_str().unicode_len() > 0 {
                    kept.push(
                        AllowlistEntry {
                            pattern: list[i].pattern.clone(),
                            agent_id: copy_opt(&list[i].agent_id),
                            last_used_ms: list[i].last_used_ms,
                            use_count: list[i].use_count,
                        },
                    );
                }
                i += 1;
            }
            assert(list@.take(list.len() as int) =~= list@);
            Some(kept)
        },
        None => None,
    };
    ExecApprovalsFile {
        version,
        security: file.security,
        ask: file.ask,
        allowlist,
        auto_allow_skills: file.auto_allow_skills,
    }
}

/// The approvals file as it is shown to a gateway. It holds nothing that
/// would have to be hidden.
pub fn redact_exec_approvals(file: ExecApprovalsFile) -> (out: ExecApprovalsFile)
    ensures
        out == file,
{
    file
}

/// The hash of a file's content: SHA-256 of its bytes, in hexadecimal.
pub fn compute_hash(content: &str) -> (hash: String)
    ensures
        hash@ == hex_text(sha256_of(content.spec_bytes())),
{
    let digest = sha256(content.as_bytes());
    encode(digest.as_slice())
}

/// Whether an update may replace the approvals file: where there is a file,
/// the update has to name the hash of the content it was made from.
pub fn base_hash_matches(on_disk: bool, current_hash: &str, base_hash: &Option<String>) -> (r: bool)
    ensures
        r == (!on_disk || (base_hash matches Some(h) && h@ == current_hash@)),
{
    if !on_disk {
        return true;
    }
    match base_hash {
        Some(h) => same_text(h.as_str(), current_hash),
        None => false,
    }
}

/// Whether a character has a meaning to a shell.
pub open spec fn is_shell_special(c: char) -> bool {
    ||| c == ' '
    ||| c == '"'
    ||| c == '\''
    ||| c == '\\'
    ||| c == '$'
    ||| c == '`'
    ||| c == '!'
    ||| c == '*'
    ||| c == '?'
    ||| c == '['
    ||| c == ']'
    ||| c == '('
    ||| c == ')'
    ||| c == '{'
    ||| c == '}'
    ||| c == '|'
    ||| c == '&'
    ||| c == ';'
    ||| c == '<'
    ||| c == '>'
    ||| c == '\n'
    ||| c == '\t'
}

/// Whether some character of `s` has a meaning to a shell.
pub open spec fn needs_quoting(s: Seq<char>) -> bool {
    exists|i: int| 0 <= i < s.len() && is_shell_special(#[trigger] s[i])
}

/// `s` with every single quote replaced by `'\''`.
pub open spec fn quotes_escaped(s: Seq<char>) -> Seq<char>
    decreases s.len(),
{
    if s.len() == 0 {
        s
    } else if s.last() == '\'' {
        quotes_escaped(s.drop_last()) + seq!['\'', '\\', '\'', '\'']
    } else {
        quotes_escaped(s.drop_last()).push(s.last())
    }
}

/// One argument as a shell reads it back unchanged.
pub open spec fn shell_word(arg: Seq<char>) -> Seq<char> {
    if needs_quoting(arg) {
        seq!['\''] + quotes_escaped(arg) + seq!['\'']
    } else if arg.len() == 0 {
        seq!['\'', '\'']
    } else {
        arg
    }
}

/// The arguments as shell words with a space between them.
pub open spec fn shell_line(argv: Seq<Seq<char>>) -> Seq<char>
    decreases argv.len(),
{
    if argv.len() == 0 {
        Seq::empty()
    } else if argv.len() == 1 {
        shell_word(argv[0])
    } else {
        shell_line(argv.drop_last()) + seq![' '] + shell_word(argv.last())
    }
}

fn shell_special(c: char) -> (r: bool)
    ensures
        r == is_shell_special(c),
{
    c == ' ' || c == '"' || c == '\'' || c == '\\' || c == '$' || c == '`' || c == '!' || c == '*' || c == '?'
        || c == '[' || c == ']' || c == '(' || c == ')' || c == '{' || c == '}' || c == '|' || c == '&' || c
        == ';' || c == '<' || c == '>' || c == '\n' || c == '\t'
}

fn push_shell_word(buf: &mut Vec<char>, arg: &Vec<char>)
    ensures
        final(buf)@ == old(buf)@ + shell_word(arg@),
{
    let mut special = false;
    let mut i: usize = 0;
    while i < arg.len()
        invariant
            i <= arg.len(),
            special == (exists|k: int| 0 <= k < i && is_shell_special(#[trigger] arg@[k])),
        decreases arg.len() - i,
    {
        if shell_special(arg[i]) {
            special = true;
        }
        i += 1;
    }
    if special {
        buf.push('\'');
        let ghost start = buf@;
        let mut j: usize = 0;
        while j < arg.len()
            invariant
                j <= arg.len(),
                buf@ == start + quotes_escaped(arg@.take(j as int)),
            decreases arg.len() - j,
        {
            assert(arg@.take(j + 1).drop_last() =~= arg@.take(j as int));
            assert(arg@.take(j + 1).last() == arg@[j as int]);
            if arg[j] == '\'' {
                buf.push('\'');
                buf.push('\\');
                buf.push('\'');
                buf.push('\'');
                assert(buf@ =~= start + quotes_escaped(arg@.take(j + 1)));
            } else {
                buf.push(arg[j]);
                assert(buf@ =~= start + quotes_escaped(arg@.take(j + 1)));
            }
            j += 1;
        }
        assert(arg@.take(arg.len() as int) =~= arg@);
        buf.push('\'');
        assert(buf@ =~= old(buf)@ + shell_word(arg@));
    } else if arg.len() == 0 {
        buf.push('\'');
        buf.push('\'');
        assert(buf@ =~= old(buf)@ + shell_word(arg@));
    } else {
        let mut j: usize = 0;
        while j < arg.len()
            invariant
                j <= arg.len(),
                buf@ == old(buf)@ + arg@.take(j as int),
            decreases arg.len() - j,
        {
            buf.push(arg[j]);
            j += 1;
            assert(buf@ =~= old(buf)@ + arg@.take(j as int));
        }
        assert(arg@.take(arg.len() as int) =~= arg@);
    }
}

/// Joins a command line so that a shell splits it into the same arguments.
pub fn shell_escape_join(argv: &[String]) -> (line: String)
    ensures
        line@ == shell_line(strs(argv@)),
{
    let mut buf: Vec<char> = Vec::new();
    let mut i: usize = 0;
    while i < argv.len()
        invariant
            i <= argv.len(),
            buf@ == shell_line(strs(argv@).take(i as int)),
        decreases argv.len() - i,
    {
        let ghost before = strs(argv@).take(i as int);
        let ghost after = strs(argv@).take(i + 1);
        assert(after.drop_last() =~= before);
        assert(after.last() == argv@[i as int]@);
        if i > 0 {
            buf.push(' ');
        }
        let ghost mid = buf@;
        let word = chars_of(argv[i].as_str());
        push_shell_word(&mut buf, &word);
        proof {
            if i == 0 {
                assert(after[0] == argv@[0]@);
                assert(buf@ =~= shell_word(after[0]));
            } else {
                assert(mid =~= shell_line(before) + seq![' ']);
            }
        }
        i += 1;
    }
    assert(strs(argv@).take(argv.len() as int) =~= strs(argv@));
    string_of(&buf)
}

/// The end of an output that is too long: the text itself if its UTF-8 form
/// has no more than `max_chars` bytes, else a note followed by the text of
/// its last `max_chars` bytes.
pub open spec fn truncated(raw: Seq<char>, max_chars: usize) -> Seq<char> {
    let bytes = encode_utf8(raw);
    if bytes.len() <= max_chars {
        raw
    } else {
        "... (truncated) "@ + decode_utf8(bytes.subrange(bytes.len() - max_chars, bytes.len() as int))
    }
}

/// Whether an output can be cut to its last `max_chars` bytes: it is short
/// enough as it is, or the cut does not fall inside a character.
pub open spec fn can_truncate(raw: Seq<char>, max_chars: usize) -> bool {
    encode_utf8(raw).len() <= max_chars || is_char_boundary(encode_utf8(raw), encode_utf8(raw).len() - max_chars)
}

/// Cuts an output to its last `max_chars` bytes and says so in front of it.
pub fn truncate_output(raw: &str, max_chars: usize) -> (out: String)
    requires
        can_truncate(raw@, max_chars),
    ensures
        out@ == truncated(raw@, max_chars),
{
    broadcast use {vstd::utf8::encode_utf8_decode_utf8, vstd::utf8::encode_utf8_valid_utf8};

    assert(raw.spec_bytes() == encode_utf8(raw@));
    let n = raw.as_bytes().len();
    if n <= max_chars {
        raw.to_string()
    } else {
        let parts = raw.split_at(n - max_chars);
        assert(parts.1.spec_bytes() == encode_utf8(parts.1@));
        assert(decode_utf8(encode_utf8(parts.1@)) == parts.1@);
        concat2("... (truncated) ", parts.1)
    }
}

/// Cuts an output as [`truncate_output`] does where that is possible, and
/// returns nothing where the cut would fall inside a character.
pub fn try_truncate_output(raw: &str, max_chars: usize) -> (out: Option<String>)
    ensures
        out is Some <==> can_truncate(raw@, max_chars),
        out is Some ==> out->0@ == truncated(raw@, max_chars),
{
    assert(raw.spec_bytes() == encode_utf8(raw@));
    let n = raw.as_bytes().len();
    if n <= max_chars || raw.is_char_boundary(n - max_chars) {
        Some(truncate_output(raw, max_chars))
    } else {
        None
    }
}

/// `s` with a backslash before every double quote.
pub open spec fn double_quotes_escaped(s: Seq<char>) -> Seq<char>
    decreases s.len(),
{
    if s.len() == 0 {
        s
    } else if s.last() == '"' {
        double_quotes_escaped(s.drop_last()).push('\\').push('"')
    } else {
        double_quotes_escaped(s.drop_last()).push(s.last())
    }
}

/// One argument, already trimmed, as it is shown: in double quotes if it is
/// empty or holds a space or a double quote.
pub open spec fn shown_word(word: Seq<char>) -> Seq<char> {
    if word.len() == 0 {
        seq!['"', '"']
    } else if word.contains(' ') || word.contains('"') {
        seq!['"'] + double_quotes_escaped(word) + seq!['"']
    } else {
        word
    }
}

/// The trimmed arguments as shown words with a space between them.
pub open spec fn shown_line(words: Seq<Seq<char>>) -> Seq<char>
    decreases words.len(),
{
    if words.len() == 0 {
        Seq::empty()
    } else if words.len() == 1 {
        shown_word(words[0])
    } else {
        shown_line(words.drop_last()) + seq![' '] + shown_word(words.last())
    }
}

fn push_shown_word(buf: &mut Vec<char>, word: &Vec<char>)
    ensures
        final(buf)@ == old(buf)@ + shown_word(word@),
{
    if word.len() == 0 {
        buf.push('"');
        buf.push('"');
        assert(buf@ =~= old(buf)@ + shown_word(word@));
    } else if index_of_char(word, ' ') < word.len() || index_of_char(word, '"') < word.len() {
        buf.push('"');
        let ghost start = buf@;
        let mut j: usize = 0;
        while j < word.len()
            invariant
                j <= word.len(),
                buf@ == start + double_quotes_escaped(word@.take(j as int)),
            decreases word.len() - j,
        {
            assert(word@.take(j + 1).drop_last() =~= word@.take(j as int));
            assert(word@.take(j + 1).last() == word@[j as int]);
            if word[j] == '"' {
                buf.push('\\');
                buf.push('"');
            } else {
                buf.push(word[j]);
            }
            assert(buf@ =~= start + double_quotes_escaped(word@.take(j + 1)));
            j += 1;
        }
        assert(word@.take(word.len() as int) =~= word@);
        buf.push('"');
        assert(buf@ =~= old(buf)@ + shown_word(word@));
    } else {
        let mut j: usize = 0;
        while j < word.len()
            invariant
                j <= word.len(),
                buf@ == old(buf)@ + word@.take(j as int),
            decreases word.len() - j,
        {
            buf.push(word[j]);
            j += 1;
            assert(buf@ =~= old(buf)@ + word@.take(j as int));
        }
        assert(word@.take(word.len() as int) =~= word@);
    }
}

/// Shows arguments that are already trimmed as one line.
pub fn format_trimmed(words: &Vec<String>) -> (line: String)
    ensures
        line@ == shown_line(strs(words@)),
{
    let mut buf: Vec<char> = Vec::new();
    let mut i: usize = 0;
    while i < words.len()
        invariant
            i <= words.len(),
            buf@ == shown_line(strs(words@).take(i as int)),
        decreases words.len() - i,
    {
        let ghost before = strs(words@).take(i as int);
        let ghost after = strs(words@).take(i + 1);
        assert(after.drop_last() =~= before);
        assert(after.last() == words@[i as int]@);
        if i > 0 {
            buf.push(' ');
        }
        let ghost mid = buf@;
        let word = chars_of(words[i].as_str());
        push_shown_word(&mut buf, &word);
        proof {
            if i == 0 {
                assert(after[0] == words@[0]@);
                assert(buf@ =~= shown_word(after[0]));
            } else {
                assert(mid =~= shown_line(before) + seq![' ']);
            }
        }
        i += 1;
    }
    assert(strs(words@).take(words.len() as int) =~= strs(words@));
    string_of(&buf)
}

/// Shows a command for people to read: each argument trimmed, and quoted
/// where it is empty or holds a space or a double quote.
pub fn format_command(argv: &[String]) -> (line: String)
    ensures
        line@ == shown_line(strs(argv@).map_values(|a: Seq<char>| trimmed_text(a))),
{
    let ghost goal = strs(argv@).map_values(|a: Seq<char>| trimmed_text(a));
    let mut words: Vec<String> = Vec::new();
    let mut i: usize = 0;
    while i < argv.len()
        invariant
            i <= argv.len(),
            goal == strs(argv@).map_values(|a: Seq<char>| trimmed_text(a)),
            strs(words@) =~= goal.take(i as int),
        decreases argv.len() - i,
    {
        let ghost before = strs(words@);
        let word = trimmed(argv[i].as_str());
        words.push(word);
        assert(strs(words@) =~= before.push(word@));
        assert(goal[i as int] == trimmed_text(argv@[i as int]@));
        i += 1;
    }
    assert(goal.take(argv.len() as int) =~= goal);
    format_trimmed(&words)
}

// ── Environment overrides ───────────────────────────────────────────────

/// Whether a variable of this name, in uppercase, changes how an interpreter
/// loads code.
pub open spec fn is_blocked_key(upper: Seq<char>) -> bool {
    ||| upper == "NODE_OPTIONS"@
    ||| upper == "PYTHONHOME"@
    ||| upper == "PYTHONPATH"@
    ||| upper == "PERL5LIB"@
    ||| upper == "PERL5OPT"@
    ||| upper == "RUBYOPT"@
}

/// Whether an override may be applied, given its name in uppercase and its
/// trimmed value. `PATH` may only be set to the current search path or to
/// something in front of it; variables that steer an interpreter or the
/// dynamic loader may not be set at all.
pub open spec fn override_passes(upper: Seq<char>, value: Seq<char>, base_path: Seq<char>) -> bool {
    if upper == "PATH"@ {
        value.len() > 0 && (value == base_path || has_suffix(value, seq![':'] + base_path))
    } else {
        !is_blocked_key(upper) && !has_prefix(upper, "DYLD_"@) && !has_prefix(upper, "LD_"@)
    }
}

/// The overrides that may be applied, in order.
pub open spec fn passing(overrides: Seq<(Seq<char>, Seq<char>)>, base_path: Seq<char>) -> Seq<
    (Seq<char>, Seq<char>),
>
    decreases overrides.len(),
{
    if overrides.len() == 0 {
        overrides
    } else {
        let kept = passing(overrides.drop_last(), base_path);
        let last = overrides.last();
        if override_passes(uppercase_text(last.0), trimmed_text(last.1), base_path) {
            kept.push(last)
        } else {
            kept
        }
    }
}

/// Whether an override may be applied, given its name in uppercase and its
/// trimmed value.
pub fn override_allowed(upper: &str, value: &str, base_path: &str) -> (r: bool)
    ensures
        r == override_passes(upper@, value@, base_path@),
{
    if same_text(upper, "PATH") {
        let v = chars_of(value);
        if v.len() == 0 {
            return false;
        }
        let base = chars_of(base_path);
        if same_chars(&v, &base) {
            return true;
        }
        let mut tail: Vec<char> = Vec::new();
        tail.push(':');
        append_chars(&mut tail, base_path);
        assert(tail@ =~= seq![':'] + base_path@);
        ends_with_chars(&v, &tail)
    } else {
        let blocked = same_text(upper, "NODE_OPTIONS") || same_text(upper, "PYTHONHOME") || same_text(
            upper,
            "PYTHONPATH",
        ) || same_text(upper, "PERL5LIB") || same_text(upper, "PERL5OPT") || same_text(upper, "RUBYOPT");
        let u = chars_of(upper);
        let dyld = chars_of("DYLD_");
        let ld = chars_of("LD_");
        !blocked && !starts_with_chars(&u, &dyld) && !starts_with_chars(&u, &ld)
    }
}

/// Views of a list of pairs of strings.
pub open spec fn pairs(v: Seq<(String, String)>) -> Seq<(Seq<char>, Seq<char>)> {
    v.map_values(|e: (String, String)| (e.0@, e.1@))
}

/// The environment overrides of a command that may be applied on top of the
/// daemon's own environment, whose search path is `base_path`.
pub fn sanitize_env(overrides: &Vec<(String, String)>, base_path: &str) -> (kept: Vec<(String, String)>)
    ensures
        pairs(kept@) == passing(pairs(overrides@), base_path@),
{
    let mut kept: Vec<(String, String)> = Vec::new();
    let ghost all = pairs(overrides@);
    let mut i: usize = 0;
    assert(pairs(kept@) =~= passing(all.take(0), base_path@));
    while i < overrides.len()
        invariant
            i <= overrides.len(),
            all == pairs(overrides@),
            pairs(kept@) == passing(all.take(i as int), base_path@),
        decreases overrides.len() - i,
    {
        let ghost before = pairs(kept@);
        assert(all.take(i + 1).drop_last() =~= all.take(i as int));
        assert(all.take(i + 1).last() == (overrides@[i as int].0@, overrides@[i as int].1@));
        let upper = uppercase(overrides[i].0.as_str());
        let value = trimmed(overrides[i].1.as_str());
        if override_allowed(upper.as_str(), value.as_str(), base_path) {
            let item = (overrides[i].0.clone(), overrides[i].1.clone());
            kept.push(item);
            assert(pairs(kept@) =~= before.push((item.0@, item.1@)));
        }
        i += 1;
    }
    assert(all.take(overrides.len() as int) =~= all);
    kept
}

} // verus!
