//! REPL command parsing: pure tokenisation and dispatch, no I/O.

use vstd::prelude::*;
use vstd::string::*;
use crate::utils::spec_last_index_of;
use crate::utils;

verus! {

/// One parsed REPL command. Remote commands go through the SFTP session;
/// the `Local*` commands (`!ls`, `!cd`, `!pwd`) act on the local side.
pub enum Command {
    Ls { path: String },
    Get { remote: String, local: String },
    Put { local: String, remote: String },
    Mkdir { path: String },
    Rm { path: String },
    Pwd,
    Cd { path: String },
    LocalLs { path: String },
    LocalCd { path: String },
    LocalPwd,
    Help,
    Quit,
    Unknown(String),
}

/// The mathematical shape of a [`Command`]: the same variants over
/// character sequences.
pub enum CommandView {
    Ls { path: Seq<char> },
    Get { remote: Seq<char>, local: Seq<char> },
    Put { local: Seq<char>, remote: Seq<char> },
    Mkdir { path: Seq<char> },
    Rm { path: Seq<char> },
    Pwd,
    Cd { path: Seq<char> },
    LocalLs { path: Seq<char> },
    LocalCd { path: Seq<char> },
    LocalPwd,
    Help,
    Quit,
    Unknown(Seq<char>),
}

impl View for Command {
    type V = CommandView;

    open spec fn view(&self) -> CommandView {
        match self {
            Command::Ls { path } => CommandView::Ls { path: path@ },
            Command::Get { remote, local } => CommandView::Get { remote: remote@, local: local@ },
            Command::Put { local, remote } => CommandView::Put { local: local@, remote: remote@ },
            Command::Mkdir { path } => CommandView::Mkdir { path: path@ },
            Command::Rm { path } => CommandView::Rm { path: path@ },
            Command::Pwd => CommandView::Pwd,
            Command::Cd { path } => CommandView::Cd { path: path@ },
            Command::LocalLs { path } => CommandView::LocalLs { path: path@ },
            Command::LocalCd { path } => CommandView::LocalCd { path: path@ },
            Command::LocalPwd => CommandView::LocalPwd,
            Command::Help => CommandView::Help,
            Command::Quit => CommandView::Quit,
            Command::Unknown(msg) => CommandView::Unknown(msg@),
        }
    }
}

/// The Unicode `White_Space` characters — the set `str::split_whitespace`
/// splits on.
pub open spec fn is_ws_char(c: char) -> bool {
    let u = c as u32;
    ||| (9 <= u <= 13)
    ||| u == 32
    ||| u == 0x85
    ||| u == 0xA0
    ||| u == 0x1680
    ||| (0x2000 <= u <= 0x200A)
    ||| u == 0x2028
    ||| u == 0x2029
    ||| u == 0x202F
    ||| u == 0x205F
    ||| u == 0x3000
}

fn is_ws(c: char) -> (r: bool)
    ensures
        r == is_ws_char(c),
{
    let u = c as u32;
    (9 <= u && u <= 13) || u == 32 || u == 0x85 || u == 0xA0 || u == 0x1680 || (0x2000 <= u && u
        <= 0x200A) || u == 0x2028 || u == 0x2029 || u == 0x202F || u == 0x205F || u == 0x3000
}

/// Length of the leading run of non-whitespace characters.
pub open spec fn spec_run_len(s: Seq<char>) -> nat
    decreases s.len(),
{
    if s.len() == 0 || is_ws_char(s[0]) {
        0
    } else {
        1 + spec_run_len(s.drop_first())
    }
}

pub proof fn lemma_run_len_bounds(s: Seq<char>)
    ensures
        spec_run_len(s) <= s.len(),
        s.len() > 0 && !is_ws_char(s[0]) ==> spec_run_len(s) >= 1,
    decreases s.len(),
{
    if s.len() > 0 && !is_ws_char(s[0]) {
        lemma_run_len_bounds(s.drop_first());
    }
}

/// The run of non-whitespace ends exactly where the first whitespace
/// character (or the end of the sequence) stands.
proof fn lemma_run_len_is(s: Seq<char>, m: int)
    requires
        0 <= m <= s.len(),
        forall|k: int| 0 <= k < m ==> !is_ws_char(s[k]),
        m == s.len() || is_ws_char(s[m]),
    ensures
        spec_run_len(s) == m,
    decreases m,
{
    if m == 0 {
    } else {
        assert(!is_ws_char(s[0]));
        lemma_run_len_is(s.drop_first(), m - 1);
    }
}

/// The whitespace-separated tokens of `s`: maximal runs of
/// non-whitespace, in order.
pub open spec fn spec_tokens(s: Seq<char>) -> Seq<Seq<char>>
    decreases s.len(),
{
    if s.len() == 0 {
        Seq::empty()
    } else if is_ws_char(s[0]) {
        spec_tokens(s.drop_first())
    } else {
        let k = spec_run_len(s);
        proof {
            lemma_run_len_bounds(s);
        }
        seq![s.take(k as int)] + spec_tokens(s.skip(k as int))
    }
}

/// Splits on Unicode whitespace, as `str::split_whitespace` does.
fn split_tokens(input: &str) -> (toks: Vec<String>)
    ensures
        toks@.map_values(|t: String| t@) == spec_tokens(input@),
{
    let len = input.unicode_len();
    let mut toks: Vec<String> = Vec::new();
    let mut i: usize = 0;
    proof {
        assert(input@.skip(0) =~= input@);
        assert(toks@.map_values(|t: String| t@) =~= Seq::<Seq<char>>::empty());
    }
    while i < len
        invariant
            i <= len,
            len == input@.len(),
            spec_tokens(input@) == toks@.map_values(|t: String| t@) + spec_tokens(
                input@.skip(i as int),
            ),
        decreases len - i,
    {
        let ghost pre_views = toks@.map_values(|t: String| t@);
        if is_ws(input.get_char(i)) {
            proof {
                assert(input@.skip(i as int).drop_first() =~= input@.skip(i + 1));
            }
            i = i + 1;
        } else {
            let mut j = i + 1;
            let mut scanning = true;
            while scanning && j < len
                invariant
                    i < j <= len,
                    len == input@.len(),
                    forall|k: int| i <= k < j ==> !is_ws_char(#[trigger] input@[k]),
                    !scanning ==> j < len && is_ws_char(input@[j as int]),
                decreases len - j, (if scanning { 1int } else { 0int }),
            {
                if is_ws(input.get_char(j)) {
                    scanning = false;
                } else {
                    j = j + 1;
                }
            }
            toks.push(String::from_str(input.substring_char(i, j)));
            proof {
                let rest = input@.skip(i as int);
                assert forall|k: int| 0 <= k < j - i implies !is_ws_char(#[trigger] rest[k]) by {
                    assert(rest[k] == input@[i + k]);
                }
                if j < len {
                    assert(rest[j - i] == input@[j as int]);
                }
                lemma_run_len_is(rest, j - i);
                assert(rest.take(j - i) =~= input@.subrange(i as int, j as int));
                assert(rest.skip(j - i) =~= input@.skip(j as int));
                assert(toks@.map_values(|t: String| t@) =~= pre_views + seq![
                    input@.subrange(i as int, j as int),
                ]);
                assert(pre_views + (seq![input@.subrange(i as int, j as int)] + spec_tokens(
                    input@.skip(j as int),
                )) =~= (pre_views + seq![input@.subrange(i as int, j as int)]) + spec_tokens(
                    input@.skip(j as int),
                ));
            }
            i = j;
        }
    }
    proof {
        assert(input@.skip(len as int) =~= Seq::<char>::empty());
        assert(toks@.map_values(|t: String| t@) + spec_tokens(Seq::<char>::empty())
            =~= toks@.map_values(|t: String| t@));
    }
    toks
}

/// Character-wise string equality.
fn str_eq(a: &str, b: &str) -> (r: bool)
    ensures
        r == (a@ == b@),
{
    let alen = a.unicode_len();
    let blen = b.unicode_len();
    if alen != blen {
        return false;
    }
    let mut i: usize = 0;
    while i < alen
        invariant
            i <= alen,
            alen == a@.len(),
            blen == b@.len(),
            alen == blen,
            forall|k: int| 0 <= k < i ==> a@[k] == b@[k],
        decreases alen - i,
    {
        if a.get_char(i) != b.get_char(i) {
            return false;
        }
        i = i + 1;
    }
    proof {
        assert(a@ =~= b@);
    }
    true
}

/// The last path component: what follows the final `/`, and within that,
/// the final `\`.
pub open spec fn spec_extract_filename(p: Seq<char>) -> Seq<char> {
    let s1 = p.skip(spec_last_index_of(p, '/') + 1);
    s1.skip(spec_last_index_of(s1, '\\') + 1)
}

/// Strips everything up to the last `/` or `\` from a path, leaving the
/// file name — the default destination name for `get` and `put`.
pub fn extract_filename(path: &str) -> (r: String)
    ensures
        r@ == spec_extract_filename(path@),
{
    let len = path.unicode_len();
    let s1 = match utils::last_index_of(path, '/') {
        Some(k) => path.substring_char(k + 1, len),
        None => path,
    };
    proof {
        assert(path@.skip(spec_last_index_of(path@, '/') + 1) =~= s1@);
    }
    let len1 = s1.unicode_len();
    let r = match utils::last_index_of(s1, '\\') {
        Some(k) => s1.substring_char(k + 1, len1),
        None => s1,
    };
    proof {
        assert(s1@.skip(spec_last_index_of(s1@, '\\') + 1) =~= r@);
    }
    String::from_str(r)
}

/// The token at `i`, if present.
pub open spec fn spec_tok_at(toks: Seq<Seq<char>>, i: int) -> Option<Seq<char>> {
    if i < toks.len() {
        Some(toks[i])
    } else {
        None
    }
}

/// The token at `i`, or `d` when absent.
pub open spec fn spec_tok_or(toks: Seq<Seq<char>>, i: int, d: Seq<char>) -> Seq<char> {
    if i < toks.len() {
        toks[i]
    } else {
        d
    }
}

/// Dispatch of a `!` local command over its name and optional argument.
pub open spec fn spec_local_command(cmd: Seq<char>, arg: Option<Seq<char>>) -> CommandView {
    let path = match arg {
        Some(a) => a,
        None => "."@,
    };
    if cmd == "ls"@ {
        CommandView::LocalLs { path }
    } else if cmd == "cd"@ {
        CommandView::LocalCd { path }
    } else if cmd == "pwd"@ {
        CommandView::LocalPwd
    } else {
        CommandView::Unknown("Unsupported local command: !"@ + cmd)
    }
}

/// Dispatch over the whitespace-separated tokens of one input line: the
/// grammar of the REPL.
pub open spec fn spec_parse(toks: Seq<Seq<char>>) -> CommandView {
    if toks.len() == 0 {
        CommandView::Unknown(Seq::empty())
    } else if toks[0].len() > 0 && toks[0][0] == '!' {
        if toks[0].len() == 1 {
            if toks.len() < 2 {
                CommandView::Unknown("Usage: !<command>"@)
            } else {
                spec_local_command(toks[1], spec_tok_at(toks, 2))
            }
        } else {
            spec_local_command(toks[0].skip(1), spec_tok_at(toks, 1))
        }
    } else if toks[0] == "ls"@ {
        CommandView::Ls { path: spec_tok_or(toks, 1, "."@) }
    } else if toks[0] == "get"@ {
        if toks.len() < 2 {
            CommandView::Unknown("Usage: get <remote> [local]"@)
        } else {
            CommandView::Get {
                remote: toks[1],
                local: if toks.len() >= 3 {
                    toks[2]
                } else {
                    spec_extract_filename(toks[1])
                },
            }
        }
    } else if toks[0] == "put"@ {
        if toks.len() < 2 {
            CommandView::Unknown("Usage: put <local> [remote]"@)
        } else {
            CommandView::Put {
                local: toks[1],
                remote: if toks.len() >= 3 {
                    toks[2]
                } else {
                    spec_extract_filename(toks[1])
                },
            }
        }
    } else if toks[0] == "mkdir"@ {
        if toks.len() < 2 {
            CommandView::Unknown("Usage: mkdir <path>"@)
        } else {
            CommandView::Mkdir { path: toks[1] }
        }
    } else if toks[0] == "rm"@ {
        if toks.len() < 2 {
            CommandView::Unknown("Usage: rm <path>"@)
        } else {
            CommandView::Rm { path: toks[1] }
        }
    } else if toks[0] == "pwd"@ {
        CommandView::Pwd
    } else if toks[0] == "cd"@ {
        CommandView::Cd { path: spec_tok_or(toks, 1, "~"@) }
    } else if toks[0] == "help"@ || toks[0] == "?"@ {
        CommandView::Help
    } else if toks[0] == "quit"@ || toks[0] == "exit"@ {
        CommandView::Quit
    } else {
        CommandView::Unknown("Unknown command: "@ + toks[0])
    }
}

/// The token at `i`, if present.
fn tok_at<'a>(toks: &'a Vec<String>, i: usize) -> (r: Option<&'a String>)
    ensures
        r matches Some(t) ==> i < toks@.len() && *t == toks@[i as int],
        r is None <==> i >= toks@.len(),
{
    if i < toks.len() {
        Some(&toks[i])
    } else {
        None
    }
}

/// Handles a local (`!`) command with its name and the argument tokens.
fn local_command(cmd: &str, arg: Option<&String>) -> (c: Command)
    ensures
        c@ == spec_local_command(cmd@, match arg {
            Some(a) => Some(a@),
            None => None,
        }),
{
    let path = match arg {
        Some(a) => a.clone(),
        None => String::from_str("."),
    };
    if str_eq(cmd, "ls") {
        Command::LocalLs { path }
    } else if str_eq(cmd, "cd") {
        Command::LocalCd { path }
    } else if str_eq(cmd, "pwd") {
        Command::LocalPwd
    } else {
        Command::Unknown(String::from_str("Unsupported local command: !").concat(cmd))
    }
}

impl Command {
    /// Parses one line of REPL input: splits it on whitespace and
    /// dispatches on the first token, exactly as [`spec_parse`] lays the
    /// grammar out.
    pub fn parse(input: &str) -> (c: Command)
        ensures
            c@ == spec_parse(spec_tokens(input@)),
    {
        let toks = split_tokens(input);
        let ghost tv = toks@.map_values(|t: String| t@);
        if toks.len() == 0 {
            return Command::Unknown(String::new());
        }
        let t0 = &toks[0];
        let t0len = t0.as_str().unicode_len();
        if t0len >= 1 && t0.as_str().get_char(0) == '!' {
            if t0len == 1 {
                if toks.len() < 2 {
                    return Command::Unknown(String::from_str("Usage: !<command>"));
                }
                return local_command(toks[1].as_str(), tok_at(&toks, 2));
            }
            let cmd = t0.as_str().substring_char(1, t0len);
            return local_command(cmd, tok_at(&toks, 1));
        }
        let t0s = t0.as_str();
        if str_eq(t0s, "ls") {
            let path = match tok_at(&toks, 1) {
                Some(p) => p.clone(),
                None => String::from_str("."),
            };
            Command::Ls { path }
        } else if str_eq(t0s, "get") {
            if toks.len() < 2 {
                return Command::Unknown(String::from_str("Usage: get <remote> [local]"));
            }
            let remote = toks[1].clone();
            let local = if toks.len() >= 3 {
                toks[2].clone()
            } else {
                extract_filename(remote.as_str())
            };
            Command::Get { remote, local }
        } else if str_eq(t0s, "put") {
            if toks.len() < 2 {
                return Command::Unknown(String::from_str("Usage: put <local> [remote]"));
            }
            let local = toks[1].clone();
            let remote = if toks.len() >= 3 {
                toks[2].clone()
            } else {
                extract_filename(local.as_str())
            };
            Command::Put { local, remote }
        } else if str_eq(t0s, "mkdir") {
            if toks.len() < 2 {
                return Command::Unknown(String::from_str("Usage: mkdir <path>"));
            }
            Command::Mkdir { path: toks[1].clone() }
        } else if str_eq(t0s, "rm") {
            if toks.len() < 2 {
                return Command::Unknown(String::from_str("Usage: rm <path>"));
            }
            Command::Rm { path: toks[1].clone() }
        } else if str_eq(t0s, "pwd") {
            Command::Pwd
        } else if str_eq(t0s, "cd") {
            let path = match tok_at(&toks, 1) {
                Some(p) => p.clone(),
                None => String::from_str("~"),
            };
            Command::Cd { path }
        } else if str_eq(t0s, "help") || str_eq(t0s, "?") {
            Command::Help
        } else if str_eq(t0s, "quit") || str_eq(t0s, "exit") {
            Command::Quit
        } else {
            Command::Unknown(String::from_str("Unknown command: ").concat(t0s))
        }
    }
}

} // verus!
