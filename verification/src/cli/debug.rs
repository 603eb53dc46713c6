//! `phs debug <script.phs> [--break-fn name] [--break N[:cond]]`: the debugger's
//! command language and breakpoint flags.

use vstd::prelude::*;
use crate::words::{string_views};
use crate::text::{
    decimal_chars, decimal_spec, extend_chars, extend_str,
    chars_eq_str, chars_of, has_prefix, parse_unsigned, parse_unsigned_spec, split_once,
    split_once_spec, string_from_chars, strip_prefix, trim, trim_spec, trim_str,
};

verus! {

/// One line typed at the debugger prompt.
#[derive(Debug, Clone, PartialEq)]
pub enum DebuggerCommand {
    Print(String),
    Inspect(String),
    Locals,
    Globals,
    Backtrace,
    Continue,
    Step,
    Next,
    Finish,
    Unknown(String),
}

/// What a prompt line means: `print <expr>` and `inspect <name>` carry their
/// trimmed argument; the bare words (and `c`, `s`, `n`) name the other commands;
/// anything else is unknown, carried trimmed.
pub open spec fn command_spec(line: Seq<char>, r: DebuggerCommand) -> bool {
    let t = trim_spec(line);
    if has_prefix(t, "print "@) {
        r matches DebuggerCommand::Print(a) && a@ == trim_spec(t.subrange(6, t.len() as int))
    } else if has_prefix(t, "inspect "@) {
        r matches DebuggerCommand::Inspect(a) && a@ == trim_spec(t.subrange(8, t.len() as int))
    } else if t == "locals"@ {
        r is Locals
    } else if t == "globals"@ {
        r is Globals
    } else if t == "backtrace"@ {
        r is Backtrace
    } else if t == "continue"@ || t == "c"@ {
        r is Continue
    } else if t == "step"@ || t == "s"@ {
        r is Step
    } else if t == "next"@ || t == "n"@ {
        r is Next
    } else if t == "finish"@ {
        r is Finish
    } else {
        r matches DebuggerCommand::Unknown(a) && a@ == t
    }
}

/// The commands that end a pause are read the same whether typed in full or
/// abbreviated: `continue`/`c`, `step`/`s`, `next`/`n`, and `finish`, with any
/// white space around them.
pub proof fn lemma_resume_words(line: Seq<char>, r: DebuggerCommand)
    requires
        command_spec(line, r),
    ensures
        trim_spec(line) == "continue"@ || trim_spec(line) == "c"@ ==> r is Continue,
        trim_spec(line) == "step"@ || trim_spec(line) == "s"@ ==> r is Step,
        trim_spec(line) == "next"@ || trim_spec(line) == "n"@ ==> r is Next,
        trim_spec(line) == "finish"@ ==> r is Finish,
{
    reveal_strlit("print ");
    reveal_strlit("inspect ");
    reveal_strlit("locals");
    reveal_strlit("globals");
    reveal_strlit("backtrace");
    reveal_strlit("continue");
    reveal_strlit("c");
    reveal_strlit("step");
    reveal_strlit("s");
    reveal_strlit("next");
    reveal_strlit("n");
    reveal_strlit("finish");
    let t = trim_spec(line);
    if t == "continue"@ || t == "c"@ || t == "step"@ || t == "s"@ || t == "next"@ || t == "n"@
        || t == "finish"@ {
        assert(!has_prefix(t, "print "@)) by {
            if t.len() >= 6 {
                assert(t[0] != "print "@[0]);
                assert(t.subrange(0, 6)[0] == t[0]);
            }
        }
        assert(!has_prefix(t, "inspect "@)) by {
            if t.len() >= 8 {
                assert(t[0] != "inspect "@[0]);
                assert(t.subrange(0, 8)[0] == t[0]);
            }
        }
        assert(t != "locals"@ && t != "globals"@ && t != "backtrace"@) by {
            assert("locals"@.len() == 6 && "globals"@.len() == 7 && "backtrace"@.len() == 9);
            if t.len() == 6 {
                assert(t[0] != "locals"@[0]);
            }
            if t.len() == 8 {
                assert(t != "globals"@);
            }
        }
        if t == "step"@ || t == "s"@ {
            assert(t != "continue"@ && t != "c"@) by {
                assert(t[0] != "c"@[0]);
            }
        }
        if t == "next"@ || t == "n"@ {
            assert(t != "continue"@ && t != "c"@ && t != "step"@ && t != "s"@) by {
                assert(t[0] != "c"@[0]);
                assert(t[0] != "s"@[0]);
            }
        }
        if t == "finish"@ {
            assert(t != "continue"@ && t != "c"@ && t != "step"@ && t != "s"@ && t != "next"@ && t
                != "n"@) by {
                assert(t[0] != "c"@[0]);
                assert(t[0] != "s"@[0]);
                assert(t[0] != "n"@[0]);
            }
        }
    }
}

/// Reads one line typed at the debugger prompt.
pub fn parse_command(line: &str) -> (r: DebuggerCommand)
    ensures
        command_spec(line@, r),
        trim_spec(line@) == "continue"@ || trim_spec(line@) == "c"@ ==> r is Continue,
        trim_spec(line@) == "step"@ || trim_spec(line@) == "s"@ ==> r is Step,
        trim_spec(line@) == "next"@ || trim_spec(line@) == "n"@ ==> r is Next,
        trim_spec(line@) == "finish"@ ==> r is Finish,
{
    let r = read_command(line);
    proof {
        lemma_resume_words(line@, r);
    }
    r
}

/// The reading of a prompt line, as [`command_spec`] gives it.
fn read_command(line: &str) -> (r: DebuggerCommand)
    ensures
        command_spec(line@, r),
{
    proof {
        reveal_strlit("print ");
        reveal_strlit("inspect ");
    }
    let t = trim_str(line);
    if let Some(rest) = strip_prefix(&t, &chars_of("print ")) {
        return DebuggerCommand::Print(string_from_chars(&trim(&rest)));
    }
    if let Some(rest) = strip_prefix(&t, &chars_of("inspect ")) {
        return DebuggerCommand::Inspect(string_from_chars(&trim(&rest)));
    }
    if chars_eq_str(&t, "locals") {
        DebuggerCommand::Locals
    } else if chars_eq_str(&t, "globals") {
        DebuggerCommand::Globals
    } else if chars_eq_str(&t, "backtrace") {
        DebuggerCommand::Backtrace
    } else if chars_eq_str(&t, "continue") || chars_eq_str(&t, "c") {
        DebuggerCommand::Continue
    } else if chars_eq_str(&t, "step") || chars_eq_str(&t, "s") {
        DebuggerCommand::Step
    } else if chars_eq_str(&t, "next") || chars_eq_str(&t, "n") {
        DebuggerCommand::Next
    } else if chars_eq_str(&t, "finish") {
        DebuggerCommand::Finish
    } else {
        DebuggerCommand::Unknown(string_from_chars(&t))
    }
}

/// How the program resumes after a prompt command that ends the pause.
#[derive(Debug, Clone, Copy, PartialEq, Eq, Structural)]
pub enum ResumeAction {
    Continue,
    StepInto,
    StepOver,
    StepOut,
}

/// The resumption a prompt command asks for: `continue`, `step`, `next` and
/// `finish` end the pause; every other command is answered at the prompt.
pub fn resume_action(cmd: &DebuggerCommand) -> (r: Option<ResumeAction>)
    ensures
        r == (match cmd {
            DebuggerCommand::Continue => Some(ResumeAction::Continue),
            DebuggerCommand::Step => Some(ResumeAction::StepInto),
            DebuggerCommand::Next => Some(ResumeAction::StepOver),
            DebuggerCommand::Finish => Some(ResumeAction::StepOut),
            _ => None::<ResumeAction>,
        }),
{
    match cmd {
        DebuggerCommand::Continue => Some(ResumeAction::Continue),
        DebuggerCommand::Step => Some(ResumeAction::StepInto),
        DebuggerCommand::Next => Some(ResumeAction::StepOver),
        DebuggerCommand::Finish => Some(ResumeAction::StepOut),
        _ => None,
    }
}

/// A `--break` flag: a source line, optionally with a condition.
#[derive(Debug, Clone, PartialEq)]
pub enum BreakpointSpec {
    Line(usize),
    Conditional(usize, String),
}

/// What a `--break` value means: text before the first `:` is a line number of
/// at least 1 and the rest (trimmed) a condition; without a `:` the whole value
/// is the line number. Anything else is no breakpoint.
pub open spec fn break_flag_spec(value: Seq<char>, r: Option<BreakpointSpec>) -> bool {
    match split_once_spec(value, ':') {
        Some((line_str, cond)) => match parse_unsigned_spec(trim_spec(line_str), usize::MAX as nat) {
            Some(l) if l > 0 => r matches Some(BreakpointSpec::Conditional(rl, c)) && rl == l
                && c@ == trim_spec(cond),
            _ => r is None,
        },
        None => match parse_unsigned_spec(trim_spec(value), usize::MAX as nat) {
            Some(l) if l > 0 => r == Some(BreakpointSpec::Line(l as usize)),
            _ => r is None,
        },
    }
}

/// Parses one `--break` flag value: `"42"` is a line breakpoint, `"42:v > 100 m/s"`
/// a conditional one. Line 0 is never a source line, so it is refused.
pub fn parse_break_flag(value: &str) -> (r: Option<BreakpointSpec>)
    ensures
        break_flag_spec(value@, r),
{
    let v = chars_of(value);
    match split_once(&v, ':') {
        Some((line_str, cond)) => {
            match parse_unsigned(&trim(&line_str), usize::MAX as u64) {
                Some(l) => {
                    if l > 0 {
                        Some(BreakpointSpec::Conditional(l as usize, string_from_chars(&trim(&cond))))
                    } else {
                        None
                    }
                },
                None => None,
            }
        },
        None => {
            match parse_unsigned(&trim(&v), usize::MAX as u64) {
                Some(l) => {
                    if l > 0 {
                        Some(BreakpointSpec::Line(l as usize))
                    } else {
                        None
                    }
                },
                None => None,
            }
        },
    }
}

/// A breakpoint asked for on the command line.
#[derive(Debug, Clone, PartialEq)]
pub enum BreakRequest {
    /// `--break-fn name`: pause on entry to the function.
    FunctionEntry(String),
    /// `--break N[:cond]` with a value that parsed.
    Spec(BreakpointSpec),
    /// `--break` with a value that did not parse (empty when the flag is last).
    Unparsable(String),
}

/// The breakpoint requests that the arguments from index `i` on ask for, in
/// order: `--break-fn` takes the next argument as a function name (and asks for
/// nothing when it is last); `--break` takes the next argument as a flag value,
/// an unparsable one (empty when the flag is last) kept as such; both consume
/// that argument; every other argument is skipped.
pub open spec fn requests_from(args: Seq<String>, i: int, out: Seq<BreakRequest>) -> bool
    decreases args.len() - i,
{
    if i < 0 || i >= args.len() {
        out.len() == 0
    } else if args[i]@ == "--break-fn"@ {
        if i + 1 < args.len() {
            &&& out.len() >= 1
            &&& out[0] matches BreakRequest::FunctionEntry(n) && n@ == args[i + 1]@
            &&& requests_from(args, i + 2, out.drop_first())
        } else {
            out.len() == 0
        }
    } else if args[i]@ == "--break"@ {
        &&& out.len() >= 1
        &&& if i + 1 < args.len() {
            &&& match out[0] {
                BreakRequest::Spec(b) => break_flag_spec(args[i + 1]@, Some(b)),
                BreakRequest::Unparsable(v) => v@ == args[i + 1]@ && break_flag_spec(
                    args[i + 1]@,
                    None,
                ),
                _ => false,
            }
            &&& requests_from(args, i + 2, out.drop_first())
        } else {
            out[0] matches BreakRequest::Unparsable(v) && v@.len() == 0 && out.len() == 1
        }
    } else {
        requests_from(args, i + 1, out)
    }
}

/// The breakpoints `phs debug` is asked for, in order. The scan starts at the
/// script path, the third argument.
pub fn debug_breakpoints(args: &Vec<String>) -> (r: Vec<BreakRequest>)
    ensures
        requests_from(args@, 2, r@),
{
    let mut out: Vec<BreakRequest> = Vec::new();
    let mut i: usize = 2;
    proof {
        assert forall|tail: Seq<BreakRequest>| requests_from(args@, i as int, tail) implies
            requests_from(args@, 2, out@ + tail) by {
            assert(out@ + tail =~= tail);
        }
    }
    while i < args.len()
        invariant
            2 <= i,
            forall|tail: Seq<BreakRequest>| #[trigger]
                requests_from(args@, i as int, tail) ==> requests_from(args@, 2, out@ + tail),
        decreases args.len() - i,
    {
        let ghost old_out = out@;
        let ghost gi = i as int;
        if chars_eq_str(&chars_of(args[i].as_str()), "--break-fn") {
            if i + 1 < args.len() {
                let req = BreakRequest::FunctionEntry(args[i + 1].clone());
                out.push(req);
                proof {
                    assert forall|tail: Seq<BreakRequest>| #[trigger]
                        requests_from(args@, gi + 2, tail) implies requests_from(
                        args@,
                        2,
                        out@ + tail,
                    ) by {
                        let t2 = seq![req] + tail;
                        assert(t2.drop_first() =~= tail);
                        assert(requests_from(args@, gi, t2));
                        assert(out@ + tail =~= old_out + t2);
                    }
                }
                i = i + 2;
            } else {
                proof {
                    assert forall|tail: Seq<BreakRequest>| #[trigger]
                        requests_from(args@, args@.len() as int, tail) implies requests_from(
                        args@,
                        2,
                        out@ + tail,
                    ) by {
                        assert(tail =~= Seq::<BreakRequest>::empty());
                        assert(requests_from(args@, gi, tail));
                    }
                }
                i = args.len();
            }
        } else if chars_eq_str(&chars_of(args[i].as_str()), "--break") {
            let req = if i + 1 < args.len() {
                match parse_break_flag(args[i + 1].as_str()) {
                    Some(spec) => BreakRequest::Spec(spec),
                    None => BreakRequest::Unparsable(args[i + 1].clone()),
                }
            } else {
                BreakRequest::Unparsable(String::new())
            };
            out.push(req);
            proof {
                assert forall|tail: Seq<BreakRequest>| #[trigger]
                    requests_from(args@, gi + 2, tail) && gi + 1 < args@.len() implies requests_from(
                    args@,
                    2,
                    out@ + tail,
                ) by {
                    let t2 = seq![req] + tail;
                    assert(t2.drop_first() =~= tail);
                    assert(t2[0] == req);
                    assert(requests_from(args@, gi, t2));
                    assert(out@ + tail =~= old_out + t2);
                }
            }
            if i + 1 < args.len() {
                i = i + 2;
            } else {
                proof {
                    let t1 = seq![req];
                    assert(t1[0] == req);
                    assert(requests_from(args@, gi, t1));
                    assert forall|tail: Seq<BreakRequest>| #[trigger]
                        requests_from(args@, args@.len() as int, tail) implies requests_from(
                        args@,
                        2,
                        out@ + tail,
                    ) by {
                        assert(out@ + tail =~= old_out + t1);
                    }
                }
                i = args.len();
            }
        } else {
            proof {
                assert forall|tail: Seq<BreakRequest>| #[trigger]
                    requests_from(args@, gi + 1, tail) implies requests_from(args@, 2, out@ + tail) by {
                    assert(requests_from(args@, gi, tail));
                }
            }
            i = i + 1;
        }
    }
    proof {
        assert(requests_from(args@, i as int, Seq::<BreakRequest>::empty()));
        assert(out@ + Seq::<BreakRequest>::empty() =~= out@);
    }
    out
}

/// A frame of the interpreter's call stack, as the debugger sees it.
#[derive(Debug, Clone)]
pub struct StackFrame {
    pub fn_name: String,
    /// The line the function was called from.
    pub call_site_line: usize,
    /// The names the function has declared so far.
    pub declared: Vec<String>,
}

/// The line printed when execution pauses: the line, and the innermost call
/// when inside a function.
pub open spec fn pause_spec(line: nat, stack: Seq<StackFrame>) -> Seq<char> {
    "Paused at line "@ + decimal_spec(line) + if stack.len() == 0 {
        Seq::empty()
    } else {
        ", in "@ + stack.last().fn_name@ + "() called from line "@ + decimal_spec(
            stack.last().call_site_line as nat,
        )
    }
}

/// Says where execution paused.
pub fn pause_message(line: usize, stack: &Vec<StackFrame>) -> (r: String)
    ensures
        r@ == pause_spec(line as nat, stack@),
{
    let mut v: Vec<char> = Vec::new();
    extend_str(&mut v, "Paused at line ");
    extend_chars(&mut v, &decimal_chars(line as u64));
    if stack.len() > 0 {
        let f = &stack[stack.len() - 1];
        extend_str(&mut v, ", in ");
        extend_str(&mut v, f.fn_name.as_str());
        extend_str(&mut v, "() called from line ");
        extend_chars(&mut v, &decimal_chars(f.call_site_line as u64));
    }
    string_from_chars(&v)
}

/// One line of a backtrace: the frame's depth counted from the innermost, its
/// function, and where it was called from.
pub open spec fn backtrace_line_spec(depth: nat, f: StackFrame) -> Seq<char> {
    "  #"@ + decimal_spec(depth) + " "@ + f.fn_name@ + " (called from line "@ + decimal_spec(
        f.call_site_line as nat,
    ) + ")"@
}

/// The backtrace, innermost frame first.
pub fn backtrace_lines(stack: &Vec<StackFrame>) -> (r: Vec<String>)
    ensures
        r@.len() == stack@.len(),
        forall|d: int| 0 <= d < stack@.len() ==> #[trigger] r@[d]@ == backtrace_line_spec(
            d as nat,
            stack@[stack@.len() - 1 - d],
        ),
{
    let mut out: Vec<String> = Vec::new();
    let n = stack.len();
    let mut d: usize = 0;
    while d < n
        invariant
            n == stack@.len(),
            d <= n,
            out@.len() == d,
            forall|k: int| 0 <= k < d ==> #[trigger] out@[k]@ == backtrace_line_spec(
                k as nat,
                stack@[n - 1 - k],
            ),
        decreases n - d,
    {
        let f = &stack[n - 1 - d];
        let mut v: Vec<char> = Vec::new();
        extend_str(&mut v, "  #");
        extend_chars(&mut v, &decimal_chars(d as u64));
        extend_str(&mut v, " ");
        extend_str(&mut v, f.fn_name.as_str());
        extend_str(&mut v, " (called from line ");
        extend_chars(&mut v, &decimal_chars(f.call_site_line as u64));
        extend_str(&mut v, ")");
        out.push(string_from_chars(&v));
        d = d + 1;
    }
    out
}

/// Whether the innermost frame has declared `name`.
pub open spec fn is_local_spec(name: Seq<char>, stack: Seq<StackFrame>) -> bool {
    stack.len() > 0 && string_views(stack.last().declared@).contains(name)
}

/// Whether the innermost frame has declared a name: `locals` lists such names,
/// `globals` the others.
pub fn is_local(name: &str, stack: &Vec<StackFrame>) -> (r: bool)
    ensures
        r == is_local_spec(name@, stack@),
{
    if stack.len() == 0 {
        return false;
    }
    let decl = &stack[stack.len() - 1].declared;
    let key = chars_of(name);
    let mut i: usize = 0;
    while i < decl.len()
        invariant
            i <= decl.len(),
            key@ == name@,
            stack@.len() > 0,
            decl@ == stack@.last().declared@,
            forall|k: int| 0 <= k < i ==> decl@[k]@ != name@,
        decreases decl.len() - i,
    {
        if crate::text::chars_eq(&chars_of(decl[i].as_str()), &key) {
            assert(string_views(decl@)[i as int] == name@);
            return true;
        }
        i = i + 1;
    }
    proof {
        if string_views(decl@).contains(name@) {
            let k = choose|k: int| 0 <= k < string_views(decl@).len() && string_views(decl@)[k] == name@;
            assert(decl@[k]@ == name@);
        }
    }
    false
}

/// Where a variable lives, as `inspect` reports it.
#[derive(Debug, Clone)]
pub enum VariableScope {
    Global,
    /// Declared by the innermost function, at this stack depth.
    Local { owner_fn: String, frame_depth: usize },
}

/// The scope `inspect` reports: local to the innermost function when it
/// declared the name, with the stack's depth; global otherwise.
pub fn inspect_scope(name: &str, stack: &Vec<StackFrame>) -> (r: VariableScope)
    ensures
        is_local_spec(name@, stack@) ==> (r matches VariableScope::Local { owner_fn, frame_depth }
            && owner_fn@ == stack@.last().fn_name@ && frame_depth == stack@.len()),
        !is_local_spec(name@, stack@) ==> r is Global,
{
    if is_local(name, stack) {
        VariableScope::Local {
            owner_fn: string_from_chars(&chars_of(stack[stack.len() - 1].fn_name.as_str())),
            frame_depth: stack.len(),
        }
    } else {
        VariableScope::Global
    }
}

/// The answer to a command the debugger does not know.
pub fn unknown_command_message(cmd: &str) -> (r: String)
    ensures
        r@ == "unknown command '"@ + cmd@
            + "' -- try print/inspect/locals/globals/backtrace/step/next/finish/continue"@,
{
    let mut v: Vec<char> = Vec::new();
    extend_str(&mut v, "unknown command '");
    extend_str(&mut v, cmd);
    extend_str(&mut v, "' -- try print/inspect/locals/globals/backtrace/step/next/finish/continue");
    string_from_chars(&v)
}

/// The answer to `inspect` of a name that is not bound.
pub fn no_variable_message(name: &str) -> (r: String)
    ensures
        r@ == "error: no variable named '"@ + name@ + "'"@,
{
    let mut v: Vec<char> = Vec::new();
    extend_str(&mut v, "error: no variable named '");
    extend_str(&mut v, name);
    extend_str(&mut v, "'");
    string_from_chars(&v)
}


/// A breakpoint's line is never 0: line numbers start at 1.
pub proof fn lemma_breakpoint_lines_positive(value: Seq<char>, r: Option<BreakpointSpec>)
    requires
        break_flag_spec(value, r),
    ensures
        r matches Some(BreakpointSpec::Line(l)) ==> l > 0,
        r matches Some(BreakpointSpec::Conditional(l, _)) ==> l > 0,
{
}

} // verus!
