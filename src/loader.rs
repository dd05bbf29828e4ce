use vstd::prelude::*;
use vstd::utf8::{valid_utf8, decode_utf8};

verus! {

/// Why a configuration could not be had.
#[derive(Debug, Clone, PartialEq, Eq)]
pub enum LoadError {
    /// None of the candidate files exists.
    DiscoveryFailed,
    /// The evaluating interpreter could not be started.
    ProcessLaunchFailed,
    /// The evaluation exited unsuccessfully; holds what it wrote to stderr.
    EvaluationFailed(String),
    /// The evaluation's standard output is not valid UTF-8.
    OutputNotUtf8,
    /// The output is not a configuration document, or a rule is incomplete.
    MalformedConfig,
    /// The evaluation did not finish within its time limit.
    Timeout,
}

/// The first candidate configuration file, looked for in the working directory.
pub const CONFIG_JS: &'static str = "logger.config.js";

/// The second candidate configuration file.
pub const CONFIG_TS: &'static str = "logger.config.ts";

/// Picks the configuration file: the first candidate that exists wins.
pub fn find_config_file(js_exists: bool, ts_exists: bool) -> (r: Result<String, LoadError>)
    ensures
        js_exists ==> (r matches Ok(p) && p@ == CONFIG_JS@),
        !js_exists && ts_exists ==> (r matches Ok(p) && p@ == CONFIG_TS@),
        !js_exists && !ts_exists ==> r matches Err(LoadError::DiscoveryFailed),
{
    if js_exists {
        Ok(String::from_str(CONFIG_JS))
    } else if ts_exists {
        Ok(String::from_str(CONFIG_TS))
    } else {
        Err(LoadError::DiscoveryFailed)
    }
}

/// The language a configuration module is written in.
#[derive(Debug, Clone, Copy, PartialEq, Eq)]
pub enum Dialect {
    /// The statically typed superset, evaluated through `npx tsx`.
    Typed,
    /// Plain script, evaluated through `node`.
    Plain,
}

/// A path names a typed module when its file name is `<something>.ts`. As
/// with a path's components, trailing separators and trailing `.` segments
/// (`a.ts/`, `a.ts/.`) do not count: the file name is the last segment left.
pub open spec fn is_typed_path(p: Seq<char>) -> bool
    decreases p.len(),
{
    if p.len() > 0 && p.last() == '/' {
        is_typed_path(p.drop_last())
    } else if p.len() >= 2 && p.last() == '.' && p[p.len() - 2] == '/' {
        is_typed_path(p.drop_last().drop_last())
    } else {
        &&& p.len() >= 4
        &&& p.subrange(p.len() - 3, p.len() as int) == seq!['.', 't', 's']
        &&& p[p.len() - 4] != '/'
    }
}

/// Classifies a configuration path by its extension.
pub fn dialect_of(path: &str) -> (r: Dialect)
    ensures
        r is Typed <==> is_typed_path(path@),
{
    let mut n = path.unicode_len();
    assert(path@.subrange(0, n as int) =~= path@);
    loop
        invariant
            n <= path@.len(),
            is_typed_path(path@.subrange(0, n as int)) == is_typed_path(path@),
        ensures
            n <= path@.len(),
            is_typed_path(path@.subrange(0, n as int)) == is_typed_path(path@),
            !(n > 0 && path@[n - 1] == '/'),
            !(n >= 2 && path@[n - 1] == '.' && path@[n - 2] == '/'),
        decreases n,
    {
        let ghost p = path@.subrange(0, n as int);
        if n > 0 && path.get_char(n - 1) == '/' {
            assert(p.last() == path@[n - 1]);
            assert(p.drop_last() =~= path@.subrange(0, n - 1));
            n = n - 1;
        } else if n >= 2 && path.get_char(n - 1) == '.' && path.get_char(n - 2) == '/' {
            assert(p.last() == path@[n - 1]);
            assert(p[p.len() - 2] == path@[n - 2]);
            assert(p.drop_last().drop_last() =~= path@.subrange(0, n - 2));
            n = n - 2;
        } else {
            break;
        }
    }
    let ghost p = path@.subrange(0, n as int);
    assert(p.len() > 0 ==> p.last() == path@[n - 1] && p.last() != '/');
    assert(p.len() >= 2 ==> p[p.len() - 2] == path@[n - 2]);
    if n >= 4 && path.get_char(n - 3) == '.' && path.get_char(n - 2) == 't' && path.get_char(n - 1) == 's'
        && path.get_char(n - 4) != '/' {
        assert(p.subrange(n - 3, n as int) =~= seq!['.', 't', 's']);
        Dialect::Typed
    } else {
        assert(is_typed_path(p) ==> p.subrange(n - 3, n as int)[0] == '.'
            && p.subrange(n - 3, n as int)[1] == 't' && p.subrange(n - 3, n as int)[2] == 's');
        Dialect::Plain
    }
}

/// Script text before the module path, for a typed module: imports its
/// default export and prints it as JSON, functions as their source text.
pub const TYPED_SCRIPT_HEAD: &'static str = "import config from '";

/// Script text after the module path, for a typed module.
pub const TYPED_SCRIPT_TAIL: &'static str = "';\nconst serialized = JSON.stringify(config, (key, value) => {\n  if (typeof value === 'function') {\n    return value.toString();\n  }\n  return value;\n});\nconsole.log(serialized);\n";

/// Script text before the module path, for a plain module: imports it
/// dynamically, taking its default export or else the module itself, falls
/// back to `require`, and prints the result as JSON, functions as source text.
pub const PLAIN_SCRIPT_HEAD: &'static str = "const path = require('path');\nconst configPath = '";

/// Script text after the module path, for a plain module.
pub const PLAIN_SCRIPT_TAIL: &'static str = "';\n(async () => {\n  let config;\n  try {\n    const module = await import(path.resolve(configPath));\n    config = module.default || module;\n  } catch (e) {\n    delete require.cache[require.resolve(path.resolve(configPath))];\n    config = require(path.resolve(configPath));\n  }\n  const serialized = JSON.stringify(config, (key, value) => {\n    if (typeof value === 'function') {\n      return value.toString();\n    }\n    return value;\n  });\n  console.log(serialized);\n})().catch((e) => {\n  console.error(e);\n  process.exit(1);\n});\n";

/// How one character of a path is written inside a single-quoted script
/// string: backslash, quote and line breaks are escaped.
pub open spec fn js_escape_char(c: char) -> Seq<char> {
    if c == '\\' {
        seq!['\\', '\\']
    } else if c == '\'' {
        seq!['\\', '\'']
    } else if c == '\n' {
        seq!['\\', 'n']
    } else if c == '\r' {
        seq!['\\', 'r']
    } else {
        seq![c]
    }
}

/// A path written inside a single-quoted script string, so that the string
/// denotes exactly the path.
pub open spec fn js_escape(p: Seq<char>) -> Seq<char>
    decreases p.len(),
{
    if p.len() == 0 {
        seq![]
    } else {
        js_escape(p.drop_last()) + js_escape_char(p.last())
    }
}

/// Escapes a path for a single-quoted script string.
pub fn js_quoted_body(path: &str) -> (r: String)
    ensures
        r@ == js_escape(path@),
{
    let n = path.unicode_len();
    let mut out = String::new();
    let mut i: usize = 0;
    proof {
        reveal_strlit("\\\\");
        reveal_strlit("\\'");
        reveal_strlit("\\n");
        reveal_strlit("\\r");
        assert(path@.subrange(0, 0) =~= Seq::<char>::empty());
    }
    while i < n
        invariant
            n == path@.len(),
            i <= n,
            out@ == js_escape(path@.subrange(0, i as int)),
            "\\\\"@ == seq!['\\', '\\'],
            "\\'"@ == seq!['\\', '\''],
            "\\n"@ == seq!['\\', 'n'],
            "\\r"@ == seq!['\\', 'r'],
        decreases n - i,
    {
        let c = path.get_char(i);
        let ghost before = out@;
        if c == '\\' {
            out.append("\\\\");
        } else if c == '\'' {
            out.append("\\'");
        } else if c == '\n' {
            out.append("\\n");
        } else if c == '\r' {
            out.append("\\r");
        } else {
            out.append(path.substring_char(i, i + 1));
            assert(path@.subrange(i as int, i + 1) =~= seq![c]);
        }
        assert(out@ =~= before + js_escape_char(c));
        assert(path@.subrange(0, i + 1).drop_last() =~= path@.subrange(0, i as int));
        i = i + 1;
    }
    assert(path@.subrange(0, n as int) =~= path@);
    out
}

/// An external command: the program and its arguments.
#[derive(Debug, Clone, PartialEq, Eq)]
pub struct EvalCommand {
    pub program: String,
    pub args: Vec<String>,
}

/// The views of the arguments of a command.
pub open spec fn args_view(args: Seq<String>) -> Seq<Seq<char>> {
    args.map_values(|a: String| a@)
}

/// The command that evaluates the configuration module at `path`; the path
/// stands escaped inside the script's quotes.
pub fn evaluation_command(path: &str) -> (r: EvalCommand)
    ensures
        is_typed_path(path@) ==> r.program@ == "npx"@ && args_view(r.args@) == seq![
            "tsx"@,
            "-e"@,
            TYPED_SCRIPT_HEAD@ + js_escape(path@) + TYPED_SCRIPT_TAIL@,
        ],
        !is_typed_path(path@) ==> r.program@ == "node"@ && args_view(r.args@) == seq![
            "-e"@,
            PLAIN_SCRIPT_HEAD@ + js_escape(path@) + PLAIN_SCRIPT_TAIL@,
        ],
{
    let mut args: Vec<String> = Vec::new();
    let body = js_quoted_body(path);
    match dialect_of(path) {
        Dialect::Typed => {
            let script = String::from_str(TYPED_SCRIPT_HEAD).concat(body.as_str()).concat(TYPED_SCRIPT_TAIL);
            args.push(String::from_str("tsx"));
            args.push(String::from_str("-e"));
            args.push(script);
            assert(args_view(args@) =~= seq!["tsx"@, "-e"@, TYPED_SCRIPT_HEAD@ + js_escape(path@) + TYPED_SCRIPT_TAIL@]);
            EvalCommand { program: String::from_str("npx"), args }
        },
        Dialect::Plain => {
            let script = String::from_str(PLAIN_SCRIPT_HEAD).concat(body.as_str()).concat(PLAIN_SCRIPT_TAIL);
            args.push(String::from_str("-e"));
            args.push(script);
            assert(args_view(args@) =~= seq!["-e"@, PLAIN_SCRIPT_HEAD@ + js_escape(path@) + PLAIN_SCRIPT_TAIL@]);
            EvalCommand { program: String::from_str("node"), args }
        },
    }
}

/// What running the evaluation command gave.
#[derive(Debug, Clone, PartialEq, Eq)]
pub enum EvalOutcome {
    /// The interpreter could not be started.
    LaunchFailed,
    /// The process was stopped after running past its time limit.
    TimedOut,
    /// The process ran to its end.
    Exited { success: bool, stdout: Vec<u8>, stderr: Vec<u8> },
}

/// How long, in milliseconds, an evaluation may run before it is stopped.
pub const EVAL_TIME_LIMIT_MS: u64 = 60000;

/// Whether a running evaluation that started `elapsed_ms` milliseconds ago
/// is to be stopped: only once it has used up its time limit.
pub fn evaluation_overdue(elapsed_ms: u64) -> (r: bool)
    ensures
        r == (elapsed_ms >= EVAL_TIME_LIMIT_MS),
{
    elapsed_ms >= EVAL_TIME_LIMIT_MS
}

/// Whether a character has the Unicode `White_Space` property.
pub open spec fn is_white_space(c: char) -> bool {
    ||| '\u{9}' <= c <= '\u{d}'
    ||| c == ' '
    ||| c == '\u{85}'
    ||| c == '\u{a0}'
    ||| c == '\u{1680}'
    ||| '\u{2000}' <= c <= '\u{200a}'
    ||| c == '\u{2028}'
    ||| c == '\u{2029}'
    ||| c == '\u{202f}'
    ||| c == '\u{205f}'
    ||| c == '\u{3000}'
}

/// The text without its leading white space.
pub open spec fn trim_start_spec(s: Seq<char>) -> Seq<char>
    decreases s.len(),
{
    if s.len() > 0 && is_white_space(s[0]) {
        trim_start_spec(s.drop_first())
    } else {
        s
    }
}

/// The text without its trailing white space.
pub open spec fn trim_end_spec(s: Seq<char>) -> Seq<char>
    decreases s.len(),
{
    if s.len() > 0 && is_white_space(s.last()) {
        trim_end_spec(s.drop_last())
    } else {
        s
    }
}

/// The text without white space at either end.
pub open spec fn trim_spec(s: Seq<char>) -> Seq<char> {
    trim_end_spec(trim_start_spec(s))
}

/// What `String::from_utf8_lossy` makes of some bytes: each invalid sequence
/// becomes a replacement character.
pub uninterp spec fn lossy_text(b: Seq<u8>) -> Seq<char>;

/// Relies on `String::from_utf8`: it succeeds exactly on valid UTF-8 and then
/// holds the characters that the bytes encode.
#[verifier::external_body]
fn utf8_string(b: Vec<u8>) -> (r: Option<String>)
    ensures
        r is Some <==> valid_utf8(b@),
        r matches Some(s) ==> s@ == decode_utf8(b@),
{
    String::from_utf8(b).ok()
}

/// Relies on `String::from_utf8_lossy`: the text depends on the bytes alone,
/// and valid UTF-8 is decoded as it stands.
#[verifier::external_body]
fn lossy_string(b: &Vec<u8>) -> (r: String)
    ensures
        r@ == lossy_text(b@),
        valid_utf8(b@) ==> r@ == decode_utf8(b@),
{
    String::from_utf8_lossy(b).into_owned()
}

/// Relies on `str::trim`: it removes the leading and trailing characters
/// with the `White_Space` property.
#[verifier::external_body]
fn trimmed(s: &str) -> (r: String)
    ensures
        r@ == trim_spec(s@),
{
    s.trim().to_string()
}

/// Reads the outcome of an evaluation: the trimmed standard output on
/// success, else the error that the outcome calls for.
pub fn payload_from_outcome(outcome: EvalOutcome) -> (r: Result<String, LoadError>)
    ensures
        outcome is LaunchFailed ==> r matches Err(LoadError::ProcessLaunchFailed),
        outcome is TimedOut ==> r matches Err(LoadError::Timeout),
        outcome is Exited && !outcome->success ==> (r matches Err(LoadError::EvaluationFailed(t))
            && t@ == lossy_text(outcome->stderr@)),
        outcome is Exited && outcome->success && !valid_utf8(outcome->stdout@) ==> r matches Err(
            LoadError::OutputNotUtf8,
        ),
        outcome is Exited && outcome->success && valid_utf8(outcome->stdout@) ==> (r matches Ok(p)
            && p@ == trim_spec(decode_utf8(outcome->stdout@))),
{
    match outcome {
        EvalOutcome::LaunchFailed => Err(LoadError::ProcessLaunchFailed),
        EvalOutcome::TimedOut => Err(LoadError::Timeout),
        EvalOutcome::Exited { success, stdout, stderr } => {
            if !success {
                return Err(LoadError::EvaluationFailed(lossy_string(&stderr)));
            }
            match utf8_string(stdout) {
                None => Err(LoadError::OutputNotUtf8),
                Some(text) => Ok(trimmed(text.as_str())),
            }
        },
    }
}

} // verus!
