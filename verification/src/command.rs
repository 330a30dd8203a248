//! The jobs the toolkit plans: external commands, the plan of a job, the
//! options a run is made with, and the report a finished job leaves.

use vstd::prelude::*;
use crate::text::{chars_of, is_alnum, is_alnum_exec, push_char, push_str};

verus! {

// ---------------------------------------------------------------------------
// Quoting

/// A character that a shell reads as itself inside a word.
pub open spec fn is_plain_char(c: char) -> bool {
    ||| is_alnum(c)
    ||| c == '-'
    ||| c == '_'
    ||| c == '.'
    ||| c == '/'
    ||| c == ':'
    ||| c == '='
    ||| c == '\\'
}

/// Every character of `s` is plain.
pub open spec fn all_plain(s: Seq<char>) -> bool {
    forall|i: int| 0 <= i < s.len() ==> is_plain_char(#[trigger] s[i])
}

/// `s` with a backslash in front of each `"`.
pub open spec fn escape_quotes(s: Seq<char>) -> Seq<char>
    decreases s.len(),
{
    if s.len() == 0 {
        Seq::<char>::empty()
    } else if s.last() == '"' {
        escape_quotes(s.drop_last()) + seq!['\\', '"']
    } else {
        escape_quotes(s.drop_last()).push(s.last())
    }
}

/// An argument as a shell command line shows it: unchanged where every
/// character is plain, otherwise in double quotes with inner quotes escaped.
pub open spec fn shell_quote_spec(s: Seq<char>) -> Seq<char> {
    if all_plain(s) {
        s
    } else {
        seq!['"'] + escape_quotes(s) + seq!['"']
    }
}

/// Reads back what `escape_quotes` wrote: a `"` there ends a `\"` that
/// stands for one `"`.
pub open spec fn unescape_quotes(e: Seq<char>) -> Seq<char>
    decreases e.len(),
{
    if e.len() == 0 {
        Seq::<char>::empty()
    } else if e.last() == '"' && e.len() >= 2 {
        unescape_quotes(e.subrange(0, e.len() - 2)).push('"')
    } else {
        unescape_quotes(e.drop_last()).push(e.last())
    }
}

/// Reads back a shown argument: a quoted one without its quotes and escapes,
/// any other as it is.
pub open spec fn shell_unquote(q: Seq<char>) -> Seq<char> {
    if q.len() >= 2 && q[0] == '"' {
        unescape_quotes(q.subrange(1, q.len() - 1))
    } else {
        q
    }
}

proof fn lemma_unescape_escape(s: Seq<char>)
    ensures
        unescape_quotes(escape_quotes(s)) == s,
    decreases s.len(),
{
    if s.len() > 0 {
        let rest = s.drop_last();
        lemma_unescape_escape(rest);
        let e = escape_quotes(s);
        if s.last() == '"' {
            assert(e.subrange(0, e.len() - 2) =~= escape_quotes(rest));
        } else {
            assert(e.drop_last() =~= escape_quotes(rest));
        }
        assert(rest.push(s.last()) =~= s);
    }
}

/// Quoting loses nothing: the shown form of an argument reads back as the
/// argument.
pub proof fn lemma_shell_quote_round_trip(s: Seq<char>)
    ensures
        shell_unquote(shell_quote_spec(s)) == s,
{
    if all_plain(s) {
        if s.len() >= 2 {
            assert(is_plain_char(s[0]));
        }
    } else {
        let q = shell_quote_spec(s);
        assert(q.subrange(1, q.len() - 1) =~= escape_quotes(s));
        lemma_unescape_escape(s);
    }
}

/// Quotes one argument for display on a shell command line: an argument made
/// only of ASCII letters, digits and `-_./:=\` is shown as it is; any other
/// is shown in double quotes, with `"` escaped as `\"`.
pub fn shell_quote(arg: &str) -> (r: String)
    ensures
        r@ == shell_quote_spec(arg@),
{
    let cs = chars_of(arg);
    let mut plain = true;
    let mut i: usize = 0;
    while i < cs.len()
        invariant
            i <= cs.len(),
            plain == (forall|j: int| 0 <= j < i ==> is_plain_char(#[trigger] cs@[j])),
        decreases cs.len() - i,
    {
        let c = cs[i];
        let ok = is_alnum_exec(c) || c == '-' || c == '_' || c == '.' || c == '/' || c == ':'
            || c == '=' || c == '\\';
        plain = plain && ok;
        i += 1;
    }
    if plain {
        let mut r = String::new();
        push_str(&mut r, arg);
        assert(r@ =~= arg@);
        return r;
    }
    let mut r = String::new();
    push_char(&mut r, '"');
    let mut k: usize = 0;
    while k < cs.len()
        invariant
            k <= cs.len(),
            r@ == seq!['"'] + escape_quotes(cs@.take(k as int)),
        decreases cs.len() - k,
    {
        let c = cs[k];
        proof {
            assert(cs@.take(k + 1).drop_last() =~= cs@.take(k as int));
        }
        if c == '"' {
            push_char(&mut r, '\\');
            push_char(&mut r, '"');
        } else {
            push_char(&mut r, c);
        }
        k += 1;
        assert(r@ =~= seq!['"'] + escape_quotes(cs@.take(k as int)));
    }
    push_char(&mut r, '"');
    assert(cs@.take(cs.len() as int) =~= cs@);
    assert(r@ =~= seq!['"'] + escape_quotes(arg@) + seq!['"']);
    r
}

// ---------------------------------------------------------------------------
// Commands

/// An external program with its arguments.
pub struct CommandSpec {
    pub program: String,
    pub args: Vec<String>,
}

/// The arguments of a command line, each after a space and quoted.
pub open spec fn display_args(args: Seq<Seq<char>>) -> Seq<char>
    decreases args.len(),
{
    if args.len() == 0 {
        Seq::<char>::empty()
    } else {
        display_args(args.drop_last()) + seq![' '] + shell_quote_spec(args.last())
    }
}

/// A command as a shell command line shows it.
pub open spec fn display_spec(program: Seq<char>, args: Seq<Seq<char>>) -> Seq<char> {
    program + display_args(args)
}

impl CommandSpec {
    /// The arguments, as character sequences.
    pub open spec fn args_view(&self) -> Seq<Seq<char>> {
        self.args.deep_view()
    }

    /// A command that runs `program` with no arguments.
    pub fn new(program: &str) -> (r: Self)
        ensures
            r.program@ == program@,
            r.args_view() == Seq::<Seq<char>>::empty(),
    {
        let mut p = String::new();
        push_str(&mut p, program);
        assert(p@ =~= program@);
        let r = CommandSpec { program: p, args: Vec::new() };
        assert(r.args_view() =~= Seq::<Seq<char>>::empty());
        r
    }

    /// The command with one more argument at the end.
    pub fn arg(self, arg: &str) -> (r: Self)
        ensures
            r.program@ == self.program@,
            r.args_view() == self.args_view().push(arg@),
    {
        let mut a = String::new();
        push_str(&mut a, arg);
        assert(a@ =~= arg@);
        let ghost before = self.args_view();
        let mut args = self.args;
        args.push(a);
        let r = CommandSpec { program: self.program, args };
        assert(r.args_view() =~= before.push(arg@));
        r
    }

    /// The command with the given arguments added at the end, in order.
    pub fn args(self, more: Vec<String>) -> (r: Self)
        ensures
            r.program@ == self.program@,
            r.args_view() == self.args_view() + more.deep_view(),
    {
        let ghost before = self.args_view();
        let mut args = self.args;
        let mut more = more;
        let ghost added = more.deep_view();
        args.append(&mut more);
        let r = CommandSpec { program: self.program, args };
        assert(r.args_view() =~= before + added);
        r
    }

    /// The command as a shell command line: the program, then each argument
    /// after a space, quoted where it needs quotes.
    pub fn display(&self) -> (r: String)
        ensures
            r@ == display_spec(self.program@, self.args_view()),
    {
        let mut out = String::new();
        push_str(&mut out, self.program.as_str());
        let mut i: usize = 0;
        while i < self.args.len()
            invariant
                i <= self.args.len(),
                out@ == self.program@ + display_args(self.args_view().take(i as int)),
            decreases self.args.len() - i,
        {
            proof {
                assert(self.args_view().take(i + 1).drop_last() =~= self.args_view().take(
                    i as int,
                ));
                assert(self.args_view().take(i + 1).last() == self.args@[i as int]@);
            }
            push_char(&mut out, ' ');
            let q = shell_quote(self.args[i].as_str());
            push_str(&mut out, q.as_str());
            i += 1;
            assert(out@ =~= self.program@ + display_args(self.args_view().take(i as int)));
        }
        assert(self.args_view().take(self.args.len() as int) =~= self.args_view());
        out
    }
}


// ---------------------------------------------------------------------------
// Plans, options and reports

/// The folder under which every job gets its own folder.
pub const DEFAULT_OUTPUT_DIR: &'static str = "forge-output";

/// How a run was asked for.
pub struct RunOptions {
    /// Print machine-readable JSON.
    pub json: bool,
    /// Plan work without running media commands.
    pub dry_run: bool,
    /// Skip overwrite prompts and assume yes.
    pub yes: bool,
    /// The folder that job folders are made in.
    pub output_root: String,
}

impl Default for RunOptions {
    /// Human output, commands run, prompts on, under `forge-output`.
    fn default() -> (r: Self)
        ensures
            !r.json,
            !r.dry_run,
            !r.yes,
            r.output_root@ == DEFAULT_OUTPUT_DIR@,
    {
        RunOptions {
            json: false,
            dry_run: false,
            yes: false,
            output_root: DEFAULT_OUTPUT_DIR.to_string(),
        }
    }
}

/// What a job will do: the operations it reports, the commands it runs and
/// the files it writes, all in its own folder.
pub struct JobPlan {
    pub job_name: String,
    pub job_dir: String,
    pub operations: Vec<String>,
    pub commands: Vec<CommandSpec>,
    pub outputs: Vec<String>,
    pub warnings: Vec<String>,
}

impl JobPlan {
    /// A plan for the named job in `job_dir`, with nothing in it yet.
    pub fn new(job_name: &str, job_dir: String) -> (r: Self)
        ensures
            r.job_name@ == job_name@,
            r.job_dir == job_dir,
            r.operations@.len() == 0,
            r.commands@.len() == 0,
            r.outputs@.len() == 0,
            r.warnings@.len() == 0,
    {
        let mut name = String::new();
        push_str(&mut name, job_name);
        assert(name@ =~= job_name@);
        JobPlan {
            job_name: name,
            job_dir,
            operations: Vec::new(),
            commands: Vec::new(),
            outputs: Vec::new(),
            warnings: Vec::new(),
        }
    }
}

/// What a finished job did, as its report files record it.
pub struct ForgeReport {
    pub job_name: String,
    /// When the job started, in RFC 3339 form.
    pub started_at: String,
    pub duration_ms: u128,
    pub input_files: Vec<String>,
    pub output_files: Vec<String>,
    pub operations_performed: Vec<String>,
    pub commands_run: Vec<String>,
    pub size_before_bytes: u64,
    pub size_after_bytes: u64,
    pub quality_settings: Vec<String>,
    pub warnings: Vec<String>,
}

impl ForgeReport {
    /// The report of a plan that ran: its name, outputs, operations and
    /// warnings come from the plan, the rest from the run.
    pub fn from_plan(
        plan: JobPlan,
        inputs: Vec<String>,
        commands_run: Vec<String>,
        started_at: String,
        duration_ms: u128,
        size_before_bytes: u64,
        size_after_bytes: u64,
    ) -> (r: Self)
        ensures
            r.job_name == plan.job_name,
            r.started_at == started_at,
            r.duration_ms == duration_ms,
            r.input_files == inputs,
            r.output_files == plan.outputs,
            r.operations_performed == plan.operations,
            r.commands_run == commands_run,
            r.size_before_bytes == size_before_bytes,
            r.size_after_bytes == size_after_bytes,
            r.quality_settings@.len() == 0,
            r.warnings == plan.warnings,
    {
        ForgeReport {
            job_name: plan.job_name,
            started_at,
            duration_ms,
            input_files: inputs,
            output_files: plan.outputs,
            operations_performed: plan.operations,
            commands_run,
            size_before_bytes,
            size_after_bytes,
            quality_settings: Vec::new(),
            warnings: plan.warnings,
        }
    }
}

} // verus!
