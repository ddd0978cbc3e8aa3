//! The loader-command protocol: parsing a configured command template,
//! substituting the input and output paths for its placeholders, choosing
//! how the result will be retrieved, and classifying subprocess failure.

use vstd::prelude::*;

use crate::text::{contains_seq, contains_sub, replace_all, replaced};
use sha2::Digest;
use vstd::string::StringExecFns;
use vstd::utf8::{encode_utf8, valid_utf8};

verus! {

/// The words that shell-style splitting gives for a command line, or
/// nothing when the line cannot be parsed (an unmatched quote).
pub uninterp spec fn shell_split(s: Seq<char>) -> Option<Seq<Seq<char>>>;

/// The command line that quotes and joins the given words.
pub uninterp spec fn shell_join(words: Seq<Seq<char>>) -> Seq<char>;

/// The lower-case hex form of the SHA-256 digest of a string's bytes.
pub uninterp spec fn sha256_hex_of(input: Seq<char>) -> Seq<char>;

/// Relies on shell_words::split: the words depend on the template text
/// alone, and parsing fails exactly on an unmatched quote.
#[verifier::external_body]
fn split_template(s: &str) -> (r: Option<Vec<String>>)
    ensures
        r is Some <==> shell_split(s@) is Some,
        r is Some ==> r.unwrap().deep_view() == shell_split(s@).unwrap(),
{
    shell_words::split(s).ok()
}

/// Relies on shell_words::join: the quoted command line depends on the
/// words alone.
#[verifier::external_body]
fn join_words(words: &Vec<String>) -> (r: String)
    ensures
        r@ == shell_join(words.deep_view()),
{
    shell_words::join(words)
}

/// Relies on sha2::Sha256 and hex::encode: the digest depends on the input
/// bytes alone, and its hex form holds two digits for each of its 32 bytes.
#[verifier::external_body]
fn sha256_hex(input: &str) -> (r: String)
    ensures
        r@ == sha256_hex_of(input@),
        r@.len() == 64,
{
    hex::encode(sha2::Sha256::digest(input.as_bytes()))
}

/// Relies on String::from_utf8: it succeeds exactly on valid UTF-8 and
/// decodes those bytes.
#[verifier::external_body]
fn utf8_to_string(bytes: Vec<u8>) -> (r: Option<String>)
    ensures
        r is Some <==> valid_utf8(bytes@),
        r is Some ==> encode_utf8(r.unwrap()@) == bytes@,
{
    String::from_utf8(bytes).ok()
}

/// Why running a loader command failed.
#[derive(Debug)]
pub enum LoaderError {
    /// The configured template could not be parsed into words.
    InvalidConfig(String),
    /// The command could not be spawned at all.
    ToolMissing(String),
    /// The command ran and reported failure.
    ToolFailed(String),
    /// A captured output stream was not valid text.
    InvalidEncoding(String),
    /// The output file could not be read back.
    OutputRead(String),
}

impl LoaderError {
    /// The message carried by the error.
    pub open spec fn message_view(&self) -> Seq<char> {
        match self {
            LoaderError::InvalidConfig(m) => m@,
            LoaderError::ToolMissing(m) => m@,
            LoaderError::ToolFailed(m) => m@,
            LoaderError::InvalidEncoding(m) => m@,
            LoaderError::OutputRead(m) => m@,
        }
    }

    /// The message carried by the error.
    pub fn message(&self) -> (r: &String)
        ensures
            r@ == self.message_view(),
    {
        match self {
            LoaderError::InvalidConfig(m) => m,
            LoaderError::ToolMissing(m) => m,
            LoaderError::ToolFailed(m) => m,
            LoaderError::InvalidEncoding(m) => m,
            LoaderError::OutputRead(m) => m,
        }
    }
}

/// Message for a template that does not parse.
pub open spec fn invalid_loader_msg(extension: Seq<char>, template: Seq<char>) -> Seq<char> {
    "Invalid rag document loader '"@ + extension + "': `"@ + template + "`"@
}

/// Message for a command that could not be spawned.
pub open spec fn unable_to_run_msg(display: Seq<char>, cmd: Seq<char>) -> Seq<char> {
    "Unable to run `"@ + display + "`, Perhaps '"@ + cmd + "' is not installed?"@
}

/// Message for a command that ran and failed without saying why.
pub open spec fn nonzero_exit_msg(display: Seq<char>) -> Seq<char> {
    "The command `"@ + display + "` exited with non-zero."@
}

/// Message for a command that ran and failed with captured stderr text:
/// the failed command named first, then what it said.
pub open spec fn tool_failed_msg(display: Seq<char>, stderr: Seq<char>) -> Seq<char> {
    "The command `"@ + display + "` failed: "@ + stderr
}

/// The directory part of the temp output path: the temp directory, ending
/// with exactly one `/` unless it is empty.
pub open spec fn dir_prefix(temp_dir: Seq<char>) -> Seq<char> {
    if temp_dir.len() == 0 {
        temp_dir
    } else if temp_dir.last() == '/' {
        temp_dir
    } else {
        temp_dir + "/"@
    }
}

/// The deterministic path of the file a loader in output-file mode writes:
/// the temp directory plus a name derived from the input path's digest.
pub open spec fn temp_path_of(temp_dir: Seq<char>, input: Seq<char>) -> Seq<char> {
    dir_prefix(temp_dir) + "aichat-output-"@ + sha256_hex_of(input)
}

/// A template word with the temp output path put for `$2` and the input
/// path put for `$1`; the tokens are replaced inside the word, so they may
/// stand embedded in a larger argument. `$2` is put in first and the input
/// path last, so tokens inside the input path are carried literally, never
/// substituted in turn.
pub open spec fn subst_word(w: Seq<char>, input: Seq<char>, out: Seq<char>) -> Seq<char> {
    replaced(replaced(w, "$2"@, out), "$1"@, input)
}

/// The raw template word asks for output-file mode: it holds `$2`.
pub open spec fn word_flips_mode(w: Seq<char>) -> bool {
    contains_seq(w, "$2"@)
}

/// Some word of the template holds `$2`: the mode is decided by static
/// inspection of the template alone, before any substitution.
pub open spec fn output_file_mode(words: Seq<Seq<char>>) -> bool {
    exists|i: int| 0 <= i < words.len() && word_flips_mode(words[i])
}

/// Every word of the template after substitution.
pub open spec fn substituted_words(
    words: Seq<Seq<char>>,
    input: Seq<char>,
    out: Seq<char>,
) -> Seq<Seq<char>> {
    words.map_values(|w: Seq<char>| subst_word(w, input, out))
}

/// Everything needed to run a loader command: the executable, its
/// arguments, a re-quoted command line for diagnostics, the retrieval mode,
/// and the temp output path for output-file mode.
#[derive(Debug)]
pub struct LoaderPlan {
    /// The executable: the template's first word after substitution.
    pub cmd: String,
    /// The remaining words after substitution, in order.
    pub args: Vec<String>,
    /// The substituted words re-quoted into one line, for messages only.
    pub display: String,
    /// True for stdout mode; false when `$2` asks for output-file mode.
    pub use_stdout: bool,
    /// Where a loader in output-file mode leaves its result.
    pub out_path: String,
}

/// The plan `prepare_loader_command` owes for a template that parses into
/// at least one word.
pub open spec fn plan_matches(
    plan: LoaderPlan,
    path: Seq<char>,
    temp_dir: Seq<char>,
    template: Seq<char>,
) -> bool {
    let words = shell_split(template)->Some_0;
    let out = temp_path_of(temp_dir, path);
    let sw = substituted_words(words, path, out);
    &&& plan.out_path@ == out
    &&& plan.cmd@ == sw[0]
    &&& plan.args.deep_view() == sw.skip(1)
    &&& plan.use_stdout == !output_file_mode(words)
    &&& plan.display@ == shell_join(sw)
}

/// Parse and substitute a loader command template.
///
/// `path` is the input file, `extension` names the configuration entry the
/// template came from, and `temp_dir` is the temp directory under which an
/// output file would be placed. The template is split into words by shell
/// rules; a template that cannot be parsed, or parses to no words at all,
/// is an invalid configuration. The retrieval mode is decided by static
/// inspection of the template's own words — output-file mode exactly when
/// some word holds `$2` — never by what the substituted values contain.
pub fn prepare_loader_command(
    path: &str,
    extension: &str,
    temp_dir: &str,
    template: &str,
) -> (r: Result<LoaderPlan, LoaderError>)
    ensures
        match r {
            Ok(plan) => {
                &&& shell_split(template@) is Some
                &&& shell_split(template@)->Some_0.len() > 0
                &&& plan_matches(plan, path@, temp_dir@, template@)
            },
            Err(e) => {
                &&& (shell_split(template@) is None || shell_split(template@)->Some_0.len() == 0)
                &&& e is InvalidConfig
                &&& e.message_view() == invalid_loader_msg(extension@, template@)
            },
        },
{
    let words = match split_template(template) {
        Some(ws) => ws,
        None => {
            return Err(LoaderError::InvalidConfig(invalid_loader_message(extension, template)));
        },
    };
    if words.len() == 0 {
        assert(shell_split(template@)->Some_0 =~= words.deep_view());
        return Err(LoaderError::InvalidConfig(invalid_loader_message(extension, template)));
    }
    let out_path = temp_output_path(temp_dir, path);
    let ghost gw = words.deep_view();
    let ghost sw = substituted_words(gw, path@, out_path@);
    let n = words.len();
    let mut subst: Vec<String> = Vec::new();
    let mut use_stdout = true;
    let mut i: usize = 0;
    proof {
        reveal_strlit("$1");
        reveal_strlit("$2");
    }
    while i < n
        invariant
            n == words@.len(),
            gw == words.deep_view(),
            gw.len() == n,
            sw == substituted_words(gw, path@, out_path@),
            i <= n,
            subst@.len() == i,
            forall|j: int| 0 <= j < i ==> subst.deep_view()[j] == sw[j],
            use_stdout == !(exists|j: int| 0 <= j < i && word_flips_mode(gw[j])),
            "$1"@.len() > 0,
            "$2"@.len() > 0,
        decreases n - i,
    {
        assert(words@[i as int]@ == gw[i as int]);
        let flips = contains_sub(words[i].as_str(), "$2");
        assert(flips == word_flips_mode(gw[i as int]));
        if flips {
            use_stdout = false;
        }
        let w1 = replace_all(words[i].as_str(), "$2", out_path.as_str());
        let w2 = replace_all(w1.as_str(), "$1", path);
        assert(w2@ == sw[i as int]);
        subst.push(w2);
        i += 1;
    }
    let display = join_words(&subst);
    proof {
        assert(subst.deep_view() =~= sw);
    }
    let mut rest = subst;
    let cmd = rest.remove(0);
    proof {
        assert(rest.deep_view() =~= sw.skip(1));
        assert(use_stdout == !output_file_mode(gw));
    }
    Ok(LoaderPlan { cmd, args: rest, display, use_stdout, out_path })
}

/// Interpret a stdout-mode run: the success flag and the two captured
/// streams become the loaded text, or a failure whose message carries the
/// captured stderr when there is any, else a generic statement; either
/// way the message names the failed command.
pub fn capture_outcome(plan: &LoaderPlan, success: bool, stdout: String, stderr: String) -> (r:
    Result<String, LoaderError>)
    ensures
        success ==> r is Ok && r->Ok_0@ == stdout@,
        !success ==> r is Err && r->Err_0 is ToolFailed,
        !success && stderr@.len() > 0 ==> r->Err_0.message_view() == tool_failed_msg(
            plan.display@,
            stderr@,
        ),
        !success && stderr@.len() == 0 ==> r->Err_0.message_view() == nonzero_exit_msg(
            plan.display@,
        ),
{
    if success {
        Ok(stdout)
    } else if !stderr.as_str().is_empty() {
        let mut m = String::from_str("The command `");
        m.append(plan.display.as_str());
        m.append("` failed: ");
        m.append(stderr.as_str());
        proof {
            assert(m@ =~= tool_failed_msg(plan.display@, stderr@));
        }
        Err(LoaderError::ToolFailed(m))
    } else {
        Err(LoaderError::ToolFailed(nonzero_exit_message(plan.display.as_str())))
    }
}

/// Interpret an output-file-mode run's exit status: zero is success, and
/// anything else is a failure of the tool.
pub fn status_outcome(plan: &LoaderPlan, status: i32) -> (r: Result<(), LoaderError>)
    ensures
        status == 0 <==> r is Ok,
        status != 0 ==> r->Err_0 is ToolFailed && r->Err_0.message_view() == nonzero_exit_msg(
            plan.display@,
        ),
{
    if status == 0 {
        Ok(())
    } else {
        Err(LoaderError::ToolFailed(nonzero_exit_message(plan.display.as_str())))
    }
}

/// The error for a command that could not be spawned at all, telling the
/// tool-missing case apart from a tool that ran and failed.
pub fn spawn_failure(plan: &LoaderPlan) -> (r: LoaderError)
    ensures
        r is ToolMissing,
        r.message_view() == unable_to_run_msg(plan.display@, plan.cmd@),
{
    let mut m = String::from_str("Unable to run `");
    m.append(plan.display.as_str());
    m.append("`, Perhaps '");
    m.append(plan.cmd.as_str());
    m.append("' is not installed?");
    proof {
        assert(m@ =~= unable_to_run_msg(plan.display@, plan.cmd@));
    }
    LoaderError::ToolMissing(m)
}

/// Interpret the read-back of the output file: its text when it could be
/// read, else a result-read failure.
pub fn output_file_outcome(contents: Option<String>) -> (r: Result<String, LoaderError>)
    ensures
        match contents {
            Some(text) => r is Ok && r->Ok_0@ == text@,
            None => r is Err && r->Err_0 is OutputRead && r->Err_0.message_view()
                == "Failed to read file generated by the loader"@,
        },
{
    match contents {
        Some(text) => Ok(text),
        None => Err(
            LoaderError::OutputRead(String::from_str("Failed to read file generated by the loader")),
        ),
    }
}

/// Decode the two captured byte streams as text; a stream that is not
/// valid UTF-8 is an encoding failure, named for the stream at fault, with
/// the stdout stream checked first.
pub fn decode_captured(stdout: Vec<u8>, stderr: Vec<u8>) -> (r: Result<
    (String, String),
    LoaderError,
>)
    ensures
        valid_utf8(stdout@) && valid_utf8(stderr@) <==> r is Ok,
        r is Ok ==> encode_utf8(r->Ok_0.0@) == stdout@ && encode_utf8(r->Ok_0.1@) == stderr@,
        r is Err ==> r->Err_0 is InvalidEncoding && r->Err_0.message_view() == (if !valid_utf8(
            stdout@,
        ) {
            "Invalid UTF-8 in stdout"@
        } else {
            "Invalid UTF-8 in stderr"@
        }),
{
    let out = match utf8_to_string(stdout) {
        Some(o) => o,
        None => {
            return Err(LoaderError::InvalidEncoding(String::from_str("Invalid UTF-8 in stdout")));
        },
    };
    match utf8_to_string(stderr) {
        Some(e) => Ok((out, e)),
        None => Err(LoaderError::InvalidEncoding(String::from_str("Invalid UTF-8 in stderr"))),
    }
}

/// Build the message for a command that ran and failed without saying why.
fn nonzero_exit_message(display: &str) -> (r: String)
    ensures
        r@ == nonzero_exit_msg(display@),
{
    let mut m = String::from_str("The command `");
    m.append(display);
    m.append("` exited with non-zero.");
    proof {
        assert(m@ =~= nonzero_exit_msg(display@));
    }
    m
}

/// The temp output path is a function of the temp directory and the input
/// path alone: repeated preparations of the same input use the same file.
pub proof fn lemma_temp_path_deterministic(temp_dir: Seq<char>, a: Seq<char>, b: Seq<char>)
    ensures
        a == b ==> temp_path_of(temp_dir, a) == temp_path_of(temp_dir, b),
{
}

/// Input paths whose digests differ get distinct temp output paths, so
/// concurrent loads of different inputs do not share a file.
pub proof fn lemma_temp_path_distinct(temp_dir: Seq<char>, a: Seq<char>, b: Seq<char>)
    ensures
        sha256_hex_of(a).len() == sha256_hex_of(b).len() && sha256_hex_of(a) != sha256_hex_of(b)
            ==> temp_path_of(temp_dir, a) != temp_path_of(temp_dir, b),
{
    let ha = sha256_hex_of(a);
    let hb = sha256_hex_of(b);
    if ha.len() == hb.len() && ha != hb {
        let p = dir_prefix(temp_dir) + "aichat-output-"@;
        assert(exists|k: int| 0 <= k < ha.len() && ha[k] != hb[k]) by {
            if forall|k: int| 0 <= k < ha.len() ==> ha[k] == hb[k] {
                assert(ha =~= hb);
            }
        }
        let k = choose|k: int| 0 <= k < ha.len() && ha[k] != hb[k];
        assert((p + ha)[p.len() + k] != (p + hb)[p.len() + k]);
        assert(temp_path_of(temp_dir, a) != temp_path_of(temp_dir, b));
    }
}

/// Build the message for a template that does not parse.
fn invalid_loader_message(extension: &str, template: &str) -> (r: String)
    ensures
        r@ == invalid_loader_msg(extension@, template@),
{
    let mut m = String::from_str("Invalid rag document loader '");
    m.append(extension);
    m.append("': `");
    m.append(template);
    m.append("`");
    proof {
        assert(m@ =~= invalid_loader_msg(extension@, template@));
    }
    m
}

/// Compute the temp output path for `input_path` under `temp_dir`.
pub fn temp_output_path(temp_dir: &str, input_path: &str) -> (r: String)
    ensures
        r@ == temp_path_of(temp_dir@, input_path@),
{
    let hash = sha256_hex(input_path);
    let n = temp_dir.unicode_len();
    let mut out = String::new();
    out.append(temp_dir);
    if n > 0 && temp_dir.get_char(n - 1) != '/' {
        out.append("/");
    }
    out.append("aichat-output-");
    out.append(hash.as_str());
    proof {
        assert(out@ =~= temp_path_of(temp_dir@, input_path@));
    }
    out
}

}
