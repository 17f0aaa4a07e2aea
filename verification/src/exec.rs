//! Process-execution service: parsing of a command line into a program and
//! its arguments, and assembly of the structured status returned to the
//! control-plane client.
//!
//! The service never spawns a child itself: the driver around the library
//! performs the spawn and hands back a [`SpawnOutcome`], so every decision
//! about what a request means and what status it yields is verified.

use vstd::prelude::*;

verus! {

/// Coarse lifecycle state of an executable, as reported to the client.
#[derive(Debug, Clone, Copy, PartialEq, Eq, Structural)]
pub enum Status {
    Unknown,
    Active,
    Complete,
    Error,
}

/// Correlation metadata of a status: a name field and a human message.
#[derive(Debug, Clone, PartialEq, Eq)]
pub struct AuraeMeta {
    pub name: String,
    pub message: String,
}

/// Process descriptor of a status; the id is `-1` when unavailable.
#[derive(Debug, Clone, Copy, PartialEq, Eq, Structural)]
pub struct ProcessMeta {
    pub pid: i32,
}

/// The structured answer to an execution request.
#[derive(Debug, Clone, PartialEq, Eq)]
pub struct ExecutableStatus {
    pub meta: AuraeMeta,
    pub proc: ProcessMeta,
    pub status: Status,
    pub stdout: String,
    pub stderr: String,
    pub exit_code: String,
}

/// A parsed command line: the program and its arguments.
#[derive(Debug, Clone, PartialEq, Eq)]
pub struct CommandLine {
    pub program: String,
    pub args: Vec<String>,
}

/// Why a command line could not be parsed.
#[derive(Debug, Clone, Copy, PartialEq, Eq, Structural)]
pub enum ExecError {
    EmptyCommand,
}

/// What became of the child process the driver spawned for a request.
#[derive(Debug, Clone, PartialEq, Eq)]
pub enum SpawnOutcome {
    /// The child ran to completion; raw captured output and the text of its
    /// exit indicator.
    Completed { stdout: Vec<u8>, stderr: Vec<u8>, exit_code: String },
    /// The child could not be spawned; the failure message.
    SpawnFailed { message: String },
}

/// Splitting of a command line: the whitespace-delimited tokens of `s`,
/// accumulated left to right; `cur` is the token under construction.
pub open spec fn split_acc(s: Seq<char>, cur: Seq<char>) -> Seq<Seq<char>>
    decreases s.len(),
{
    if s.len() == 0 {
        if cur.len() > 0 {
            seq![cur]
        } else {
            Seq::<Seq<char>>::empty()
        }
    } else if s[0] == ' ' {
        (if cur.len() > 0 {
            seq![cur]
        } else {
            Seq::<Seq<char>>::empty()
        }) + split_acc(s.drop_first(), Seq::<char>::empty())
    } else {
        split_acc(s.drop_first(), cur + seq![s[0]])
    }
}

/// The whitespace-delimited tokens of a command line, in order, with empty
/// tokens dropped.
pub open spec fn split_ws(s: Seq<char>) -> Seq<Seq<char>> {
    split_acc(s, Seq::<char>::empty())
}

/// The arguments taken from the tokens after the program: every token equal
/// to the program token is skipped.
pub open spec fn args_of(toks: Seq<Seq<char>>, prog: Seq<char>) -> Seq<Seq<char>>
    decreases toks.len(),
{
    if toks.len() == 0 {
        Seq::<Seq<char>>::empty()
    } else {
        (if toks[0] == prog {
            Seq::<Seq<char>>::empty()
        } else {
            seq![toks[0]]
        }) + args_of(toks.drop_first(), prog)
    }
}

proof fn lemma_args_of_push(ts: Seq<Seq<char>>, x: Seq<char>, p: Seq<char>)
    ensures
        args_of(ts.push(x), p) == args_of(ts, p) + (if x == p {
            Seq::<Seq<char>>::empty()
        } else {
            seq![x]
        }),
    decreases ts.len(),
{
    if ts.len() == 0 {
        assert(ts.push(x).drop_first() =~= ts);
        assert(ts.push(x)[0] == x);
        assert(args_of(ts.push(x), p) =~= args_of(ts, p) + (if x == p {
            Seq::<Seq<char>>::empty()
        } else {
            seq![x]
        }));
    } else {
        lemma_args_of_push(ts.drop_first(), x, p);
        assert(ts.push(x).drop_first() =~= ts.drop_first().push(x));
        assert(args_of(ts.push(x), p) =~= args_of(ts, p) + (if x == p {
            Seq::<Seq<char>>::empty()
        } else {
            seq![x]
        }));
    }
}

/// Splits a command line on spaces into its nonempty tokens.
pub fn split_whitespace(s: &str) -> (toks: Vec<String>)
    ensures
        toks.deep_view() == split_ws(s@),
{
    let n = s.unicode_len();
    let mut toks: Vec<String> = Vec::new();
    let mut i: usize = 0;
    proof {
        assert(s@.skip(0) =~= s@);
        assert(toks.deep_view() =~= Seq::<Seq<char>>::empty());
        assert(toks.deep_view() + split_acc(s@, Seq::<char>::empty()) =~= split_acc(
            s@,
            Seq::<char>::empty(),
        ));
    }
    while i < n
        invariant
            0 <= i <= n,
            n == s@.len(),
            split_ws(s@) == toks.deep_view() + split_acc(s@.skip(i as int), Seq::<char>::empty()),
        decreases n - i,
    {
        let c = s.get_char(i);
        if c == ' ' {
            proof {
                assert(s@.skip(i as int).drop_first() =~= s@.skip(i + 1));
            }
            i = i + 1;
        } else {
            let start = i;
            let ghost a = i as int;
            proof {
                assert(s@.skip(i as int).drop_first() =~= s@.skip(i + 1));
                assert(Seq::<char>::empty() + seq![s@[a]] =~= s@.subrange(a, a + 1));
            }
            i = i + 1;
            while i < n && s.get_char(i) != ' '
                invariant
                    0 <= a < i <= n,
                    n == s@.len(),
                    split_ws(s@) == toks.deep_view() + split_acc(
                        s@.skip(i as int),
                        s@.subrange(a, i as int),
                    ),
                    s@.subrange(a, i as int).len() > 0,
                decreases n - i,
            {
                proof {
                    assert(s@.skip(i as int).drop_first() =~= s@.skip(i + 1));
                    assert(s@.subrange(a, i as int) + seq![s@[i as int]] =~= s@.subrange(
                        a,
                        i + 1,
                    ));
                }
                i = i + 1;
            }
            let token = String::from_str(s.substring_char(start, i));
            proof {
                if i < n {
                    assert(s@.skip(i as int)[0] == s@[i as int]);
                }
            }
            toks.push(token);
            proof {
                assert(toks.deep_view() =~= toks.deep_view().drop_last().push(token@));
            }
            if i < n {
                proof {
                    assert(s@.skip(i as int).drop_first() =~= s@.skip(i + 1));
                    assert(toks.deep_view().drop_last() + (seq![s@.subrange(a, i as int)]
                        + split_acc(s@.skip(i + 1), Seq::<char>::empty())) =~= toks.deep_view()
                        + split_acc(s@.skip(i + 1), Seq::<char>::empty()));
                }
                i = i + 1;
            } else {
                proof {
                    assert(s@.skip(i as int).len() == 0);
                    assert(toks.deep_view().drop_last() + seq![s@.subrange(a, i as int)]
                        =~= toks.deep_view());
                    assert(toks.deep_view() + split_acc(
                        s@.skip(i as int),
                        Seq::<char>::empty(),
                    ) =~= toks.deep_view());
                }
            }
        }
    }
    proof {
        assert(s@.skip(n as int).len() == 0);
        assert(toks.deep_view() + split_acc(s@.skip(n as int), Seq::<char>::empty())
            =~= toks.deep_view());
    }
    toks
}

/// Parses a command line: the first token is the program, the remaining
/// tokens are its arguments, with any token equal to the program skipped.
/// A command line with no tokens is refused.
pub fn command_from_string(cmd: &str) -> (r: Result<CommandLine, ExecError>)
    ensures
        match r {
            Ok(cl) => {
                &&& split_ws(cmd@).len() > 0
                &&& cl.program@ == split_ws(cmd@)[0]
                &&& cl.args.deep_view() == args_of(split_ws(cmd@).drop_first(), cl.program@)
            },
            Err(e) => split_ws(cmd@).len() == 0 && e == ExecError::EmptyCommand,
        },
{
    let toks = split_whitespace(cmd);
    if toks.len() == 0 {
        return Err(ExecError::EmptyCommand);
    }
    let program = toks[0].clone();
    let mut args: Vec<String> = Vec::new();
    let mut k: usize = 1;
    while k < toks.len()
        invariant
            1 <= k <= toks@.len(),
            toks.deep_view() == split_ws(cmd@),
            split_ws(cmd@).len() > 0,
            program@ == split_ws(cmd@)[0],
            args.deep_view() == args_of(toks.deep_view().subrange(1, k as int), program@),
        decreases toks@.len() - k,
    {
        let equal = toks[k] == program;
        proof {
            lemma_args_of_push(toks.deep_view().subrange(1, k as int), toks.deep_view()[k as int],
                program@);
            assert(toks.deep_view().subrange(1, k + 1) =~= toks.deep_view().subrange(
                1,
                k as int,
            ).push(toks.deep_view()[k as int]));
        }
        if !equal {
            args.push(toks[k].clone());
            proof {
                assert(args.deep_view() =~= args.deep_view().drop_last().push(
                    toks.deep_view()[k as int],
                ));
                assert(args.deep_view() =~= args_of(
                    toks.deep_view().subrange(1, k + 1),
                    program@,
                ));
            }
        } else {
            proof {
                assert(args.deep_view() + Seq::<Seq<char>>::empty() =~= args.deep_view());
                assert(args.deep_view() =~= args_of(
                    toks.deep_view().subrange(1, k + 1),
                    program@,
                ));
            }
        }
        k = k + 1;
    }
    proof {
        assert(toks.deep_view().subrange(1, toks.deep_view().len() as int)
            =~= toks.deep_view().drop_first());
    }
    Ok(CommandLine { program, args })
}

/// The text a byte sequence decodes to, if it is well-formed UTF-8.
pub uninterp spec fn utf8_decode(b: Seq<u8>) -> Option<Seq<char>>;

/// Relies on String::from_utf8: the bytes decode to text exactly when they
/// are well-formed UTF-8, and the result depends on the bytes alone.
#[verifier::external_body]
fn decode_utf8(bytes: Vec<u8>) -> (r: Option<String>)
    ensures
        r matches Some(s) ==> utf8_decode(bytes@) == Some(s@),
        r is None ==> utf8_decode(bytes@) is None,
{
    match String::from_utf8(bytes) {
        Ok(s) => Some(s),
        Err(_) => None,
    }
}

/// A status that reports a failure as domain data: `Error` state, the
/// failure message in the metadata, and sentinel placeholders (`-1` process
/// id, `"-"` fields) everywhere else.
pub open spec fn is_error_status(st: ExecutableStatus, message: Seq<char>) -> bool {
    &&& st.meta.name@ == seq!['-']
    &&& st.meta.message@ == message
    &&& st.proc.pid == -1
    &&& st.status == Status::Error
    &&& st.stdout@ == seq!['-']
    &&& st.stderr@ == seq!['-']
    &&& st.exit_code@ == seq!['-']
}

/// A status that reports a completed child: `Complete` state, the command
/// line as the name, the decoded output, and the exit indicator text.
pub open spec fn is_complete_status(
    st: ExecutableStatus,
    command: Seq<char>,
    stdout: Seq<char>,
    stderr: Seq<char>,
    exit_code: Seq<char>,
) -> bool {
    &&& st.meta.name@ == command
    &&& st.meta.message@ == seq!['-']
    &&& st.proc.pid == -1
    &&& st.status == Status::Complete
    &&& st.stdout@ == stdout
    &&& st.stderr@ == stderr
    &&& st.exit_code@ == exit_code
}

fn error_status(message: String) -> (st: ExecutableStatus)
    ensures
        is_error_status(st, message@),
{
    proof {
        reveal_strlit("-");
        assert("-"@ =~= seq!['-']);
    }
    ExecutableStatus {
        meta: AuraeMeta { name: String::from_str("-"), message },
        proc: ProcessMeta { pid: -1 },
        status: Status::Error,
        stdout: String::from_str("-"),
        stderr: String::from_str("-"),
        exit_code: String::from_str("-"),
    }
}

/// The next move of the service for a request: either the driver must spawn
/// the parsed command, or the answer is already decided.
#[derive(Debug, Clone, PartialEq, Eq)]
pub enum ExecStep {
    Spawn(CommandLine),
    Done(ExecutableStatus),
}

/// The server-side handler of the executable-run operation.
#[derive(Debug, Default, Clone, PartialEq, Eq, Structural)]
pub struct RuntimeService {}

impl RuntimeService {
    /// Begins an execution request: parses the command line. A command line
    /// with at least one token must be spawned; an empty one is answered at
    /// once with an error status, never a transport failure.
    pub fn exec_start(&self, command: &str) -> (step: ExecStep)
        ensures
            match step {
                ExecStep::Spawn(cl) => {
                    &&& split_ws(command@).len() > 0
                    &&& cl.program@ == split_ws(command@)[0]
                    &&& cl.args.deep_view() == args_of(
                        split_ws(command@).drop_first(),
                        cl.program@,
                    )
                },
                ExecStep::Done(st) => {
                    &&& split_ws(command@).len() == 0
                    &&& is_error_status(st, "empty command string"@)
                },
            },
    {
        match command_from_string(command) {
            Ok(cl) => ExecStep::Spawn(cl),
            Err(_) => ExecStep::Done(error_status(String::from_str("empty command string"))),
        }
    }

    /// Finishes an execution request from what became of the child. A
    /// completed child with decodable output yields a `Complete` status
    /// carrying that output; undecodable output and spawn failures yield an
    /// error status, as domain data rather than a transport failure.
    pub fn exec_finish(&self, command: &str, outcome: SpawnOutcome) -> (st: ExecutableStatus)
        ensures
            match outcome {
                SpawnOutcome::Completed { stdout, stderr, exit_code } => {
                    if utf8_decode(stdout@) is Some && utf8_decode(stderr@) is Some {
                        is_complete_status(
                            st,
                            command@,
                            utf8_decode(stdout@)->0,
                            utf8_decode(stderr@)->0,
                            exit_code@,
                        )
                    } else {
                        is_error_status(st, "failed to decode process output"@)
                    }
                },
                SpawnOutcome::SpawnFailed { message } => is_error_status(st, message@),
            },
    {
        match outcome {
            SpawnOutcome::Completed { stdout, stderr, exit_code } => {
                let out = decode_utf8(stdout);
                let err = decode_utf8(stderr);
                match (out, err) {
                    (Some(out_text), Some(err_text)) => {
                        proof {
                            reveal_strlit("-");
                            assert("-"@ =~= seq!['-']);
                        }
                        ExecutableStatus {
                            meta: AuraeMeta {
                                name: String::from_str(command),
                                message: String::from_str("-"),
                            },
                            proc: ProcessMeta { pid: -1 },
                            status: Status::Complete,
                            stdout: out_text,
                            stderr: err_text,
                            exit_code,
                        }
                    },
                    _ => error_status(String::from_str("failed to decode process output")),
                }
            },
            SpawnOutcome::SpawnFailed { message } => error_status(message),
        }
    }
}

} // verus!
