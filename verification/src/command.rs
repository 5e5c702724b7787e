//! Building an executable command specification from one raw command string
//! and the run's shell mode, and the error taxonomy of the batch.

use vstd::prelude::*;
use vstd::string::StrSliceExecFns;
use vstd::string::StringExecFns;

verus! {

broadcast use vstd::string::group_string_axioms;

/// How a raw command string is turned into a program and its arguments:
/// `Direct` splits the string on whitespace itself, `Bash` hands the whole
/// string to the `bash` interpreter unmodified.
#[derive(Clone, Copy, PartialEq, Eq, Structural, Debug)]
pub enum Shell {
    Direct,
    Bash,
}

impl Shell {
    /// Validated conversion from the command-line selector: `"none"` means
    /// `Direct`, `"bash"` means `Bash`, anything else is a configuration
    /// error reported as `None`.
    pub fn from(value: &str) -> (r: Option<Shell>)
        ensures
            r == Some(Shell::Bash) <==> value@ == "bash"@,
            r == Some(Shell::Direct) <==> value@ == "none"@,
            r is None <==> (value@ != "bash"@ && value@ != "none"@),
    {
        proof {
            reveal_strlit("bash");
            reveal_strlit("none");
            assert("bash"@[0] == 'b' && "none"@[0] == 'n');
        }
        if str_eq(value, "bash") {
            Some(Shell::Bash)
        } else if str_eq(value, "none") {
            Some(Shell::Direct)
        } else {
            None
        }
    }
}

/// Whether a character counts as a token separator; the splitting rules of
/// the `Direct` mode are stated in terms of this predicate.
pub uninterp spec fn is_whitespace_char(c: char) -> bool;

/// Relies on `char::is_whitespace`: whether the character has the Unicode
/// `White_Space` property, a function of the character alone.
#[verifier::external_body]
fn char_is_whitespace(c: char) -> (r: bool)
    ensures
        r == is_whitespace_char(c),
{
    c.is_whitespace()
}

/// Relies on `str`'s `PartialEq`: two string slices are equal exactly when
/// their character sequences are equal.
#[verifier::external_body]
fn str_eq(a: &str, b: &str) -> (r: bool)
    ensures
        r == (a@ == b@),
{
    a == b
}

/// One step of the left-to-right whitespace split. The state is the
/// finished token list together with the (possibly empty) token still being
/// accumulated: whitespace closes the accumulating token, anything else
/// extends it.
pub open spec fn split_step(st: (Seq<Seq<char>>, Seq<char>), c: char) -> (Seq<Seq<char>>, Seq<char>) {
    if is_whitespace_char(c) {
        (close_token(st), Seq::empty())
    } else {
        (st.0, st.1.push(c))
    }
}

/// Appends the token under construction to the finished tokens, if there is one.
pub open spec fn close_token(st: (Seq<Seq<char>>, Seq<char>)) -> Seq<Seq<char>> {
    if st.1.len() > 0 {
        st.0.push(st.1)
    } else {
        st.0
    }
}

/// The state of a left-to-right whitespace split after consuming `s`.
pub open spec fn split_state(s: Seq<char>) -> (Seq<Seq<char>>, Seq<char>)
    decreases s.len(),
{
    if s.len() == 0 {
        (Seq::empty(), Seq::empty())
    } else {
        split_step(split_state(s.drop_last()), s.last())
    }
}

/// The whitespace-separated tokens of `s`: the maximal runs of
/// non-whitespace characters, in order.
pub open spec fn tokens_of(s: Seq<char>) -> Seq<Seq<char>> {
    close_token(split_state(s))
}

proof fn lemma_split_state_step(s: Seq<char>, i: int)
    requires
        0 <= i < s.len(),
    ensures
        split_state(s.take(i + 1)) == split_step(split_state(s.take(i)), s[i]),
{
    assert(s.take(i + 1).drop_last() =~= s.take(i));
    assert(s.take(i + 1).last() == s[i]);
}

proof fn lemma_no_open_token(s: Seq<char>, i: int)
    requires
        0 <= i <= s.len(),
        i == 0 || is_whitespace_char(s[i - 1]),
    ensures
        split_state(s.take(i)).1 == Seq::<char>::empty(),
{
    if i == 0 {
        assert(s.take(0) =~= Seq::<char>::empty());
    } else {
        lemma_split_state_step(s, i - 1);
    }
}

/// A token list has no tokens exactly when every character of the input is
/// whitespace (in particular, when the input is empty).
pub proof fn lemma_tokens_empty_iff_all_whitespace(s: Seq<char>)
    ensures
        tokens_of(s).len() == 0 <==> (forall|i: int| 0 <= i < s.len() ==> is_whitespace_char(s[i])),
    decreases s.len(),
{
    if s.len() == 0 {
    } else {
        lemma_tokens_empty_iff_all_whitespace(s.drop_last());
        assert(forall|i: int| 0 <= i < s.len() - 1 ==> s.drop_last()[i] == s[i]);
        if is_whitespace_char(s.last()) {
            assert(tokens_of(s) == close_token(split_state(s.drop_last())));
        } else {
            assert(split_state(s).1.len() > 0);
            assert(tokens_of(s).len() > 0);
            assert(!is_whitespace_char(s[s.len() - 1]));
        }
    }
}

/// The whitespace-separated tokens of `s`, as owned strings.
fn split_whitespace_tokens(s: &str) -> (r: Vec<String>)
    ensures
        r.deep_view() == tokens_of(s@),
{
    let n: usize = s.unicode_len();
    let mut toks: Vec<String> = Vec::new();
    let mut i: usize = 0;
    while i < n
        invariant
            n == s@.len(),
            i <= n,
            toks.deep_view() == tokens_of(s@.take(i as int)),
            i < n ==> (i == 0 || is_whitespace_char(s@[i - 1]) || is_whitespace_char(s@[i as int])),
        decreases n - i,
    {
        let c = s.get_char(i);
        if char_is_whitespace(c) {
            proof {
                lemma_split_state_step(s@, i as int);
            }
            i = i + 1;
        } else {
            let start: usize = i;
            proof {
                lemma_no_open_token(s@, i as int);
                lemma_split_state_step(s@, i as int);
            }
            i = i + 1;
            proof {
                assert(split_state(s@.take(i as int)).1 =~= s@.subrange(start as int, i as int));
            }
            while i < n && !char_is_whitespace(s.get_char(i))
                invariant
                    n == s@.len(),
                    start < i <= n,
                    split_state(s@.take(i as int)).0 == toks.deep_view(),
                    split_state(s@.take(i as int)).1 == s@.subrange(start as int, i as int),
                decreases n - i,
            {
                proof {
                    lemma_split_state_step(s@, i as int);
                    assert(s@.subrange(start as int, i as int).push(s@[i as int]) =~= s@.subrange(
                        start as int,
                        i + 1,
                    ));
                }
                i = i + 1;
            }
            let tok = s.substring_char(start, i).to_owned();
            let ghost old_toks = toks.deep_view();
            toks.push(tok);
            proof {
                assert(toks.deep_view() =~= old_toks.push(s@.subrange(start as int, i as int)));
            }
        }
    }
    proof {
        assert(s@.take(n as int) =~= s@);
    }
    toks
}

/// An executable specification of one command: the program to run and its
/// argument list, derived from a raw command string and the shell mode.
#[derive(Debug)]
pub struct Command {
    pub program: String,
    pub args: Vec<String>,
}

/// What it means for `c` to be the command built from the raw string `raw`
/// under `shell`: in `Bash` mode the interpreter is invoked with the raw
/// string verbatim; in `Direct` mode the first whitespace token is the
/// program and the remaining tokens are the arguments.
pub open spec fn builds(raw: Seq<char>, shell: Shell, c: Command) -> bool {
    match shell {
        Shell::Bash => {
            &&& c.program@ == "bash"@
            &&& c.args.deep_view() == seq!["-c"@, raw]
        },
        Shell::Direct => {
            &&& tokens_of(raw).len() > 0
            &&& c.program@ == tokens_of(raw)[0]
            &&& c.args.deep_view() == tokens_of(raw).drop_first()
        },
    }
}

/// The errors of the batch: a structurally broken command string (fatal for
/// the whole batch) or a failure of the operating system to create the
/// process (recoverable; carries the command and the OS error detail).
#[derive(Debug)]
pub enum ProgramError {
    EmptyCommand,
    SpawnError(Command, String),
}

/// The arguments joined with single spaces: the empty sequence for no
/// arguments, otherwise the arguments in order with one space between
/// neighbours.
pub open spec fn join_spaces(args: Seq<Seq<char>>) -> Seq<char>
    decreases args.len(),
{
    if args.len() == 0 {
        Seq::empty()
    } else if args.len() == 1 {
        args[0]
    } else {
        args[0] + " "@ + join_spaces(args.drop_first())
    }
}

proof fn lemma_join_spaces_push(args: Seq<Seq<char>>, a: Seq<char>)
    ensures
        args.len() == 0 ==> join_spaces(args.push(a)) == a,
        args.len() > 0 ==> join_spaces(args.push(a)) == join_spaces(args) + " "@ + a,
    decreases args.len(),
{
    if args.len() == 0 {
        assert(args.push(a)[0] == a);
    } else {
        lemma_join_spaces_push(args.drop_first(), a);
        assert(args.push(a).drop_first() =~= args.drop_first().push(a));
        assert(args.push(a)[0] == args[0]);
        if args.len() == 1 {
            assert(join_spaces(args.push(a)) == args[0] + " "@ + a);
        }
    }
}

/// The one-line rendering of a command: the program, one space, and the
/// space-joined arguments (so a command without arguments ends in a space).
pub open spec fn spec_display(c: Command) -> Seq<char> {
    c.program@ + " "@ + join_spaces(c.args.deep_view())
}

/// The diagnostic line for an error: a fixed sentence for an empty command,
/// and the rendered command with the OS error detail for a failed spawn.
pub open spec fn spec_message(e: ProgramError) -> Seq<char> {
    match e {
        ProgramError::EmptyCommand => "Cannot run empty command"@,
        ProgramError::SpawnError(c, detail) => "Error running \""@ + spec_display(c) + "\": "@
            + detail@,
    }
}

impl Command {
    /// Renders the command as the program followed by its space-joined
    /// arguments.
    pub fn display(&self) -> (r: String)
        ensures
            r@ == spec_display(*self),
    {
        let mut out = self.program.clone();
        out.append(" ");
        let ghost dv = self.args.deep_view();
        proof {
            assert(out@ =~= self.program@ + " "@ + join_spaces(dv.take(0)));
        }
        let mut j: usize = 0;
        while j < self.args.len()
            invariant
                j <= self.args.len(),
                dv == self.args.deep_view(),
                out@ == self.program@ + " "@ + join_spaces(dv.take(j as int)),
            decreases self.args.len() - j,
        {
            proof {
                assert(dv.take(j as int).push(dv[j as int]) =~= dv.take(j + 1));
                lemma_join_spaces_push(dv.take(j as int), dv[j as int]);
            }
            if j > 0 {
                out.append(" ");
            }
            out.append(self.args[j].as_str());
            proof {
                assert(out@ =~= self.program@ + " "@ + join_spaces(dv.take(j + 1)));
            }
            j = j + 1;
        }
        proof {
            assert(dv.take(self.args@.len() as int) =~= dv);
        }
        out
    }
}

impl ProgramError {
    /// Renders the error as its diagnostic line.
    pub fn message(&self) -> (r: String)
        ensures
            r@ == spec_message(*self),
    {
        match self {
            ProgramError::EmptyCommand => String::from_str("Cannot run empty command"),
            ProgramError::SpawnError(c, detail) => {
                let mut out = String::from_str("Error running \"");
                let shown = c.display();
                out.append(shown.as_str());
                out.append("\": ");
                out.append(detail.as_str());
                proof {
                    assert(out@ =~= "Error running \""@ + spec_display(*c) + "\": "@ + detail@);
                }
                out
            },
        }
    }
}

impl Command {
    /// Builds the command specification for one raw command string. Fails
    /// with `EmptyCommand` exactly when the mode is `Direct` and the string
    /// holds no token, that is, it is empty or all whitespace.
    pub fn from(feature: &str, shell: &Shell) -> (r: Result<Command, ProgramError>)
        ensures
            r is Err <==> (*shell is Direct && tokens_of(feature@).len() == 0),
            r matches Err(e) ==> e is EmptyCommand,
            r matches Ok(c) ==> builds(feature@, *shell, c),
    {
        match shell {
            Shell::Bash => {
                let mut args: Vec<String> = Vec::new();
                args.push(String::from_str("-c"));
                args.push(feature.to_owned());
                let c = Command { program: String::from_str("bash"), args };
                proof {
                    assert(c.args.deep_view() =~= seq!["-c"@, feature@]);
                }
                Ok(c)
            },
            Shell::Direct => {
                let mut parts = split_whitespace_tokens(feature);
                if parts.len() == 0 {
                    Err(ProgramError::EmptyCommand)
                } else {
                    let ghost toks = tokens_of(feature@);
                    let program = parts.remove(0);
                    let c = Command { program, args: parts };
                    proof {
                        assert(c.args.deep_view() =~= toks.drop_first());
                    }
                    Ok(c)
                }
            },
        }
    }
}

} // verus!
