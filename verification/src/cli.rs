//! Command-line argument handling.
//!
//! The grammar accepted by the program is defined here as a specification
//! function over the raw argument tokens, and the executable parser is proved
//! to follow it exactly. Flags are matched as whole tokens, so a flag and its
//! value are two tokens (`--fit path`, `-f path`): the `--fit=path` form and
//! bundled short flags such as `-mf` are not part of the grammar and are
//! reported as unknown flags. The token after a value flag is taken verbatim
//! as its value; `--` ends flag processing.
//!
//! Parsing is followed by validation: the activity file must exist, and video
//! files are required (and must exist) unless metrics mode is selected. The
//! caller probes the file system and passes the existence results in, so that
//! every decision made here is verified.

use vstd::prelude::*;

use crate::order::str_eq;

verus! {

// ---------------------------------------------------------------------------
// Parsed argument shapes
// ---------------------------------------------------------------------------
/// The arguments as parsed, before any file-existence validation.
#[derive(Debug)]
pub struct RawArgs {
    /// Path given to the activity-file flag.
    pub fit_file: String,
    /// Whether metrics mode was selected.
    pub metrics_mode: bool,
    /// Path given to the output flag, if any.
    pub output_file: Option<String>,
    /// Positional video-file paths, in the order given.
    pub videos: Vec<String>,
}

/// Specification-level image of `RawArgs`.
pub struct SpecRawArgs {
    pub fit_file: Seq<char>,
    pub metrics_mode: bool,
    pub output_file: Option<Seq<char>>,
    pub videos: Seq<Seq<char>>,
}

/// The view of an optional string.
pub open spec fn opt_view(o: Option<String>) -> Option<Seq<char>> {
    match o {
        Some(s) => Some(s@),
        None => None,
    }
}

impl View for RawArgs {
    type V = SpecRawArgs;

    open spec fn view(&self) -> SpecRawArgs {
        SpecRawArgs {
            fit_file: self.fit_file@,
            metrics_mode: self.metrics_mode,
            output_file: opt_view(self.output_file),
            videos: self.videos.deep_view(),
        }
    }
}

/// What an invocation asks for: one of the informational commands, or a run
/// with parsed arguments.
#[derive(Debug)]
pub enum CliCommand {
    Help,
    Version,
    Run(RawArgs),
}

/// Specification-level image of `CliCommand`.
pub enum SpecCliCommand {
    Help,
    Version,
    Run(SpecRawArgs),
}

impl View for CliCommand {
    type V = SpecCliCommand;

    open spec fn view(&self) -> SpecCliCommand {
        match self {
            CliCommand::Help => SpecCliCommand::Help,
            CliCommand::Version => SpecCliCommand::Version,
            CliCommand::Run(raw) => SpecCliCommand::Run(raw@),
        }
    }
}

/// A violation of the argument grammar. Each variant carries the token or
/// canonical flag it concerns.
#[derive(Debug)]
pub enum ArgError {
    /// The mandatory activity-file flag was not given.
    MissingFit,
    /// A value flag came last, with no token left for its value.
    MissingValue(String),
    /// A flag was given more than once.
    Repeated(String),
    /// A token that looks like a flag but is not one of the known flags.
    UnknownFlag(String),
}

/// Specification-level image of `ArgError`.
pub enum SpecArgError {
    MissingFit,
    MissingValue(Seq<char>),
    Repeated(Seq<char>),
    UnknownFlag(Seq<char>),
}

impl View for ArgError {
    type V = SpecArgError;

    open spec fn view(&self) -> SpecArgError {
        match self {
            ArgError::MissingFit => SpecArgError::MissingFit,
            ArgError::MissingValue(f) => SpecArgError::MissingValue(f@),
            ArgError::Repeated(f) => SpecArgError::Repeated(f@),
            ArgError::UnknownFlag(t) => SpecArgError::UnknownFlag(t@),
        }
    }
}

// ---------------------------------------------------------------------------
// The grammar
// ---------------------------------------------------------------------------
/// Intermediate parser state: flags seen so far.
pub struct SpecParseState {
    pub fit: Option<Seq<char>>,
    pub metrics: bool,
    pub output: Option<Seq<char>>,
    pub videos: Seq<Seq<char>>,
    pub positional_only: bool,
}

/// The parser state before any token is read.
pub open spec fn initial_state() -> SpecParseState {
    SpecParseState {
        fit: None,
        metrics: false,
        output: None,
        videos: Seq::empty(),
        positional_only: false,
    }
}

/// A token that is treated as a flag when flag processing is active: at
/// least two characters long and starting with a dash.
pub open spec fn is_flag_token(t: Seq<char>) -> bool {
    t.len() >= 2 && t[0] == '-'
}

/// The argument grammar, one token at a time. Returns the command an
/// invocation with the remaining `tokens` asks for, starting from state `st`.
pub open spec fn spec_parse_from(tokens: Seq<Seq<char>>, st: SpecParseState) -> Result<
    SpecCliCommand,
    SpecArgError,
>
    decreases tokens.len(),
{
    if tokens.len() == 0 {
        match st.fit {
            Some(f) => Ok(
                SpecCliCommand::Run(
                    SpecRawArgs {
                        fit_file: f,
                        metrics_mode: st.metrics,
                        output_file: st.output,
                        videos: st.videos,
                    },
                ),
            ),
            None => Err(SpecArgError::MissingFit),
        }
    } else {
        let t = tokens[0];
        let rest = tokens.drop_first();
        if st.positional_only {
            spec_parse_from(
                rest,
                SpecParseState {
                    fit: st.fit,
                    metrics: st.metrics,
                    output: st.output,
                    videos: st.videos.push(t),
                    positional_only: true,
                },
            )
        } else if t == "--help"@ || t == "-h"@ {
            Ok(SpecCliCommand::Help)
        } else if t == "--version"@ || t == "-V"@ {
            Ok(SpecCliCommand::Version)
        } else if t == "--metrics"@ || t == "-m"@ {
            if st.metrics {
                Err(SpecArgError::Repeated("--metrics"@))
            } else {
                spec_parse_from(
                    rest,
                    SpecParseState {
                        fit: st.fit,
                        metrics: true,
                        output: st.output,
                        videos: st.videos,
                        positional_only: false,
                    },
                )
            }
        } else if t == "--fit"@ || t == "-f"@ {
            if st.fit is Some {
                Err(SpecArgError::Repeated("--fit"@))
            } else if rest.len() == 0 {
                Err(SpecArgError::MissingValue("--fit"@))
            } else {
                spec_parse_from(
                    rest.drop_first(),
                    SpecParseState {
                        fit: Some(rest[0]),
                        metrics: st.metrics,
                        output: st.output,
                        videos: st.videos,
                        positional_only: false,
                    },
                )
            }
        } else if t == "--output"@ || t == "-o"@ {
            if st.output is Some {
                Err(SpecArgError::Repeated("--output"@))
            } else if rest.len() == 0 {
                Err(SpecArgError::MissingValue("--output"@))
            } else {
                spec_parse_from(
                    rest.drop_first(),
                    SpecParseState {
                        fit: st.fit,
                        metrics: st.metrics,
                        output: Some(rest[0]),
                        videos: st.videos,
                        positional_only: false,
                    },
                )
            }
        } else if t == "--"@ {
            spec_parse_from(
                rest,
                SpecParseState {
                    fit: st.fit,
                    metrics: st.metrics,
                    output: st.output,
                    videos: st.videos,
                    positional_only: true,
                },
            )
        } else if is_flag_token(t) {
            Err(SpecArgError::UnknownFlag(t))
        } else {
            spec_parse_from(
                rest,
                SpecParseState {
                    fit: st.fit,
                    metrics: st.metrics,
                    output: st.output,
                    videos: st.videos.push(t),
                    positional_only: false,
                },
            )
        }
    }
}

/// The command an invocation with argument tokens `tokens` (the program name
/// excluded) asks for, or the grammar violation it commits.
pub open spec fn spec_parse(tokens: Seq<Seq<char>>) -> Result<SpecCliCommand, SpecArgError> {
    spec_parse_from(tokens, initial_state())
}

/// The view of a parse result.
pub open spec fn parse_view(r: Result<CliCommand, ArgError>) -> Result<
    SpecCliCommand,
    SpecArgError,
> {
    match r {
        Ok(c) => Ok(c@),
        Err(e) => Err(e@),
    }
}

// ---------------------------------------------------------------------------
// The executable parser
// ---------------------------------------------------------------------------
/// Parses the argument tokens (the program name excluded) exactly as the
/// grammar `spec_parse` prescribes.
pub fn parse_args(args: &Vec<String>) -> (r: Result<CliCommand, ArgError>)
    ensures
        parse_view(r) == spec_parse(args.deep_view()),
{
    let ghost toks = args.deep_view();
    let mut fit: Option<String> = None;
    let mut metrics: bool = false;
    let mut output: Option<String> = None;
    let mut videos: Vec<String> = Vec::new();
    let mut positional_only: bool = false;
    let mut i: usize = 0;
    proof {
        assert(toks.skip(0) =~= toks);
        assert(videos.deep_view() =~= Seq::<Seq<char>>::empty());
    }
    while i < args.len()
        invariant
            i <= args.len(),
            toks == args.deep_view(),
            spec_parse(toks) == spec_parse_from(
                toks.skip(i as int),
                (SpecParseState {
                    fit: opt_view(fit),
                    metrics: metrics,
                    output: opt_view(output),
                    videos: videos.deep_view(),
                    positional_only: positional_only,
                }),
            ),
        decreases args.len() - i,
    {
        let ghost pre = toks.skip(i as int);
        proof {
            assert(pre[0] == toks[i as int]);
            assert(pre.drop_first() =~= toks.skip(i + 1));
        }
        let t = &args[i];
        proof {
            assert(t@ == toks[i as int]);
        }
        if positional_only {
            let ghost vdv = videos.deep_view();
            videos.push(t.clone());
            proof {
                assert(videos.deep_view() =~= vdv.push(t@));
            }
            i = i + 1;
        } else if str_eq(t.as_str(), "--help") || str_eq(t.as_str(), "-h") {
            return Ok(CliCommand::Help);
        } else if str_eq(t.as_str(), "--version") || str_eq(t.as_str(), "-V") {
            return Ok(CliCommand::Version);
        } else if str_eq(t.as_str(), "--metrics") || str_eq(t.as_str(), "-m") {
            if metrics {
                return Err(ArgError::Repeated(String::from_str("--metrics")));
            }
            metrics = true;
            i = i + 1;
        } else if str_eq(t.as_str(), "--fit") || str_eq(t.as_str(), "-f") {
            if fit.is_some() {
                return Err(ArgError::Repeated(String::from_str("--fit")));
            }
            if i + 1 == args.len() {
                proof {
                    assert(pre.drop_first().len() == 0);
                }
                return Err(ArgError::MissingValue(String::from_str("--fit")));
            }
            proof {
                assert(pre.drop_first()[0] == toks[i + 1]);
                assert(pre.drop_first().drop_first() =~= toks.skip(i + 2));
            }
            fit = Some(args[i + 1].clone());
            i = i + 2;
        } else if str_eq(t.as_str(), "--output") || str_eq(t.as_str(), "-o") {
            if output.is_some() {
                return Err(ArgError::Repeated(String::from_str("--output")));
            }
            if i + 1 == args.len() {
                proof {
                    assert(pre.drop_first().len() == 0);
                }
                return Err(ArgError::MissingValue(String::from_str("--output")));
            }
            proof {
                assert(pre.drop_first()[0] == toks[i + 1]);
                assert(pre.drop_first().drop_first() =~= toks.skip(i + 2));
            }
            output = Some(args[i + 1].clone());
            i = i + 2;
        } else if str_eq(t.as_str(), "--") {
            positional_only = true;
            i = i + 1;
        } else {
            let is_flag = t.as_str().unicode_len() >= 2 && t.as_str().get_char(0) == '-';
            if is_flag {
                proof {
                    assert(is_flag_token(t@));
                }
                return Err(ArgError::UnknownFlag(t.clone()));
            }
            proof {
                assert(!is_flag_token(t@));
            }
            let ghost vdv = videos.deep_view();
            videos.push(t.clone());
            proof {
                assert(videos.deep_view() =~= vdv.push(t@));
            }
            i = i + 1;
        }
    }
    proof {
        assert(toks.skip(i as int) =~= Seq::<Seq<char>>::empty());
    }
    match fit {
        Some(f) => Ok(
            CliCommand::Run(
                RawArgs { fit_file: f, metrics_mode: metrics, output_file: output, videos },
            ),
        ),
        None => Err(ArgError::MissingFit),
    }
}

// ---------------------------------------------------------------------------
// Validation
// ---------------------------------------------------------------------------
/// The validated, immutable configuration a run works with.
#[derive(Debug)]
pub struct AppArgs {
    /// Path of the activity file; it existed when validation probed it.
    pub fit_file: String,
    /// Whether metrics mode was selected.
    pub metrics_mode: bool,
    /// Path the output video would be written to; `movie.mp4` when no output
    /// flag was given.
    pub output_file: String,
    /// Video-file paths, in the order given; every one existed when
    /// validation probed it. Empty only in metrics mode.
    pub videos: Vec<String>,
}

/// Specification-level image of `AppArgs`.
pub struct SpecAppArgs {
    pub fit_file: Seq<char>,
    pub metrics_mode: bool,
    pub output_file: Seq<char>,
    pub videos: Seq<Seq<char>>,
}

impl View for AppArgs {
    type V = SpecAppArgs;

    open spec fn view(&self) -> SpecAppArgs {
        SpecAppArgs {
            fit_file: self.fit_file@,
            metrics_mode: self.metrics_mode,
            output_file: self.output_file@,
            videos: self.videos.deep_view(),
        }
    }
}

/// A validation failure. Each variant carries the path it concerns.
#[derive(Debug)]
pub enum ValidationError {
    /// The activity file does not exist on disk.
    FitFileMissing(String),
    /// No video files were given, and metrics mode was not selected.
    VideosRequired,
    /// The first named video file that does not exist on disk.
    VideoFileMissing(String),
}

/// Specification-level image of `ValidationError`.
pub enum SpecValidationError {
    FitFileMissing(Seq<char>),
    VideosRequired,
    VideoFileMissing(Seq<char>),
}

impl View for ValidationError {
    type V = SpecValidationError;

    open spec fn view(&self) -> SpecValidationError {
        match self {
            ValidationError::FitFileMissing(p) => SpecValidationError::FitFileMissing(p@),
            ValidationError::VideosRequired => SpecValidationError::VideosRequired,
            ValidationError::VideoFileMissing(p) => SpecValidationError::VideoFileMissing(p@),
        }
    }
}

/// The output path used when no output flag is given.
pub open spec fn default_output() -> Seq<char> {
    "movie.mp4"@
}

/// The index of the first `false` in `exists_flags`, or its length when every
/// entry is `true`.
pub open spec fn first_missing(exists_flags: Seq<bool>) -> int
    decreases exists_flags.len(),
{
    if exists_flags.len() == 0 {
        0
    } else if !exists_flags[0] {
        0
    } else {
        1 + first_missing(exists_flags.drop_first())
    }
}

proof fn lemma_first_missing_at(exists_flags: Seq<bool>, k: int)
    requires
        0 <= k < exists_flags.len(),
        forall|j: int| 0 <= j < k ==> exists_flags[j],
        !exists_flags[k],
    ensures
        first_missing(exists_flags) == k,
    decreases k,
{
    if k > 0 {
        lemma_first_missing_at(exists_flags.drop_first(), k - 1);
    }
}

proof fn lemma_first_missing_none(exists_flags: Seq<bool>)
    requires
        forall|j: int| 0 <= j < exists_flags.len() ==> exists_flags[j],
    ensures
        first_missing(exists_flags) == exists_flags.len(),
    decreases exists_flags.len(),
{
    if exists_flags.len() > 0 {
        lemma_first_missing_none(exists_flags.drop_first());
    }
}

/// The validation rules, in order: the activity file must exist; unless
/// metrics mode is selected there must be at least one video file; every
/// video file must exist, the first missing one being reported. On success,
/// an unspecified output path defaults to `movie.mp4`.
pub open spec fn spec_resolve(
    raw: SpecRawArgs,
    fit_exists: bool,
    video_exists: Seq<bool>,
) -> Result<SpecAppArgs, SpecValidationError>
    recommends
        video_exists.len() == raw.videos.len(),
{
    if !fit_exists {
        Err(SpecValidationError::FitFileMissing(raw.fit_file))
    } else if !raw.metrics_mode && raw.videos.len() == 0 {
        Err(SpecValidationError::VideosRequired)
    } else if first_missing(video_exists) < video_exists.len() {
        Err(SpecValidationError::VideoFileMissing(raw.videos[first_missing(video_exists)]))
    } else {
        Ok(
            SpecAppArgs {
                fit_file: raw.fit_file,
                metrics_mode: raw.metrics_mode,
                output_file: match raw.output_file {
                    Some(o) => o,
                    None => default_output(),
                },
                videos: raw.videos,
            },
        )
    }
}

/// The view of a validation result.
pub open spec fn resolve_view(r: Result<AppArgs, ValidationError>) -> Result<
    SpecAppArgs,
    SpecValidationError,
> {
    match r {
        Ok(a) => Ok(a@),
        Err(e) => Err(e@),
    }
}

/// Validates the parsed arguments exactly as `spec_resolve` prescribes.
/// `fit_exists` says whether the activity file exists on disk, and
/// `video_exists` says the same for each video file in order; the caller
/// probes the file system.
pub fn resolve_args(raw: RawArgs, fit_exists: bool, video_exists: &Vec<bool>) -> (r: Result<
    AppArgs,
    ValidationError,
>)
    requires
        video_exists@.len() == raw.videos@.len(),
    ensures
        resolve_view(r) == spec_resolve(raw@, fit_exists, video_exists@),
{
    if !fit_exists {
        return Err(ValidationError::FitFileMissing(raw.fit_file));
    }
    if !raw.metrics_mode && raw.videos.len() == 0 {
        return Err(ValidationError::VideosRequired);
    }
    let mut k: usize = 0;
    while k < video_exists.len()
        invariant
            k <= video_exists.len(),
            fit_exists,
            raw@.metrics_mode || raw@.videos.len() != 0,
            video_exists@.len() == raw.videos@.len(),
            forall|j: int| 0 <= j < k ==> video_exists@[j],
        decreases video_exists.len() - k,
    {
        if !video_exists[k] {
            proof {
                lemma_first_missing_at(video_exists@, k as int);
            }
            let path = raw.videos[k].clone();
            proof {
                assert(path@ == raw@.videos[k as int]);
            }
            return Err(ValidationError::VideoFileMissing(path));
        }
        k = k + 1;
    }
    proof {
        lemma_first_missing_none(video_exists@);
    }
    let output_file = match raw.output_file {
        Some(o) => o,
        None => String::from_str("movie.mp4"),
    };
    Ok(
        AppArgs {
            fit_file: raw.fit_file,
            metrics_mode: raw.metrics_mode,
            output_file,
            videos: raw.videos,
        },
    )
}

// ---------------------------------------------------------------------------
// Diagnostics
// ---------------------------------------------------------------------------
impl SpecValidationError {
    /// The diagnostic printed on standard error for this failure.
    pub open spec fn spec_message(self) -> Seq<char> {
        match self {
            SpecValidationError::FitFileMissing(p) => "Error: FIT file does not exist: "@ + p,
            SpecValidationError::VideosRequired =>
                "Error: Video files are required unless --metrics is specified"@,
            SpecValidationError::VideoFileMissing(p) => "Error: Video file does not exist: "@ + p,
        }
    }
}

impl ValidationError {
    /// Renders the diagnostic for this failure.
    pub fn message(&self) -> (s: String)
        ensures
            s@ == self@.spec_message(),
    {
        match self {
            ValidationError::FitFileMissing(p) => String::from_str(
                "Error: FIT file does not exist: ",
            ).concat(p.as_str()),
            ValidationError::VideosRequired => String::from_str(
                "Error: Video files are required unless --metrics is specified",
            ),
            ValidationError::VideoFileMissing(p) => String::from_str(
                "Error: Video file does not exist: ",
            ).concat(p.as_str()),
        }
    }
}

impl SpecArgError {
    /// The diagnostic printed on standard error for this grammar violation.
    pub open spec fn spec_message(self) -> Seq<char> {
        match self {
            SpecArgError::MissingFit =>
                "error: the following required arguments were not provided: --fit <FIT_FILE>"@,
            SpecArgError::MissingValue(f) => "error: a value is required for '"@ + f
                + "' but none was supplied"@,
            SpecArgError::Repeated(f) => "error: the argument '"@ + f
                + "' cannot be used multiple times"@,
            SpecArgError::UnknownFlag(t) => "error: unexpected argument '"@ + t + "' found"@,
        }
    }
}

impl ArgError {
    /// Renders the diagnostic for this grammar violation.
    pub fn message(&self) -> (s: String)
        ensures
            s@ == self@.spec_message(),
    {
        match self {
            ArgError::MissingFit => String::from_str(
                "error: the following required arguments were not provided: --fit <FIT_FILE>",
            ),
            ArgError::MissingValue(f) => String::from_str("error: a value is required for '")
                .concat(f.as_str())
                .concat("' but none was supplied"),
            ArgError::Repeated(f) => String::from_str("error: the argument '")
                .concat(f.as_str())
                .concat("' cannot be used multiple times"),
            ArgError::UnknownFlag(t) => String::from_str("error: unexpected argument '")
                .concat(t.as_str())
                .concat("' found"),
        }
    }
}

// ---------------------------------------------------------------------------
// Usage text
// ---------------------------------------------------------------------------
/// The usage text, line by line.
pub open spec fn spec_usage_lines() -> Seq<Seq<char>> {
    seq![
        "Combines FIT data with video files to create data-overlaid videos"@,
        ""@,
        "Usage: fit-video [OPTIONS] --fit <FIT_FILE> [VIDEO_FILES]..."@,
        ""@,
        "Arguments:"@,
        "  [VIDEO_FILES]...  The video files to combine with FIT data"@,
        ""@,
        "Options:"@,
        "  -f, --fit <FIT_FILE>        The FIT file containing activity data"@,
        "  -m, --metrics               Extract metrics from FIT file without video processing"@,
        "  -o, --output <OUTPUT_FILE>  The output video file (defaults to movie.mp4)"@,
        "  -h, --help                  Print help"@,
        "  -V, --version               Print version"@,
    ]
}

/// Renders the usage text.
pub fn usage_lines() -> (r: Vec<String>)
    ensures
        r.deep_view() == spec_usage_lines(),
{
    let mut lines: Vec<String> = Vec::new();
    lines.push(String::from_str("Combines FIT data with video files to create data-overlaid videos"));
    lines.push(String::from_str(""));
    lines.push(String::from_str("Usage: fit-video [OPTIONS] --fit <FIT_FILE> [VIDEO_FILES]..."));
    lines.push(String::from_str(""));
    lines.push(String::from_str("Arguments:"));
    lines.push(String::from_str("  [VIDEO_FILES]...  The video files to combine with FIT data"));
    lines.push(String::from_str(""));
    lines.push(String::from_str("Options:"));
    lines.push(String::from_str("  -f, --fit <FIT_FILE>        The FIT file containing activity data"));
    lines.push(String::from_str("  -m, --metrics               Extract metrics from FIT file without video processing"));
    lines.push(String::from_str("  -o, --output <OUTPUT_FILE>  The output video file (defaults to movie.mp4)"));
    lines.push(String::from_str("  -h, --help                  Print help"));
    lines.push(String::from_str("  -V, --version               Print version"));
    proof {
        assert(lines.deep_view() =~= spec_usage_lines());
    }
    lines
}

// ---------------------------------------------------------------------------
// Laws of the grammar
// ---------------------------------------------------------------------------
/// An invocation with no arguments at all fails for want of the
/// activity-file flag.
pub proof fn lemma_no_args_fails()
    ensures
        spec_parse(Seq::empty()) == Err::<SpecCliCommand, SpecArgError>(SpecArgError::MissingFit),
{
}

/// An invocation whose first argument asks for help gets the help screen.
pub proof fn lemma_help_first(tokens: Seq<Seq<char>>)
    requires
        tokens.len() > 0,
        tokens[0] == "--help"@ || tokens[0] == "-h"@,
    ensures
        spec_parse(tokens) == Ok::<SpecCliCommand, SpecArgError>(SpecCliCommand::Help),
{
}

proof fn lemma_parse_from_missing_fit(tokens: Seq<Seq<char>>, st: SpecParseState)
    requires
        st.fit is None,
        forall|i: int|
            0 <= i < tokens.len() ==> #[trigger] tokens[i] != "--fit"@ && tokens[i] != "-f"@
                && tokens[i] != "--help"@ && tokens[i] != "-h"@ && tokens[i] != "--version"@
                && tokens[i] != "-V"@,
    ensures
        spec_parse_from(tokens, st) is Err,
    decreases tokens.len(),
{
    if tokens.len() != 0 {
        let t = tokens[0];
        let rest = tokens.drop_first();
        assert forall|i: int| 0 <= i < rest.len() implies #[trigger] rest[i] != "--fit"@ && rest[i]
            != "-f"@ && rest[i] != "--help"@ && rest[i] != "-h"@ && rest[i] != "--version"@
            && rest[i] != "-V"@ by {
            assert(rest[i] == tokens[i + 1]);
        }
        if st.positional_only {
            lemma_parse_from_missing_fit(
                rest,
                SpecParseState {
                    fit: st.fit,
                    metrics: st.metrics,
                    output: st.output,
                    videos: st.videos.push(t),
                    positional_only: true,
                },
            );
        } else if t == "--metrics"@ || t == "-m"@ {
            if !st.metrics {
                lemma_parse_from_missing_fit(
                    rest,
                    SpecParseState {
                        fit: st.fit,
                        metrics: true,
                        output: st.output,
                        videos: st.videos,
                        positional_only: false,
                    },
                );
            }
        } else if t == "--output"@ || t == "-o"@ {
            if st.output is None && rest.len() != 0 {
                let rest2 = rest.drop_first();
                assert forall|i: int| 0 <= i < rest2.len() implies #[trigger] rest2[i] != "--fit"@
                    && rest2[i] != "-f"@ && rest2[i] != "--help"@ && rest2[i] != "-h"@ && rest2[i]
                    != "--version"@ && rest2[i] != "-V"@ by {
                    assert(rest2[i] == tokens[i + 2]);
                }
                lemma_parse_from_missing_fit(
                    rest2,
                    SpecParseState {
                        fit: st.fit,
                        metrics: st.metrics,
                        output: Some(rest[0]),
                        videos: st.videos,
                        positional_only: false,
                    },
                );
            }
        } else if t == "--"@ {
            lemma_parse_from_missing_fit(
                rest,
                SpecParseState {
                    fit: st.fit,
                    metrics: st.metrics,
                    output: st.output,
                    videos: st.videos,
                    positional_only: true,
                },
            );
        } else if !is_flag_token(t) {
            lemma_parse_from_missing_fit(
                rest,
                SpecParseState {
                    fit: st.fit,
                    metrics: st.metrics,
                    output: st.output,
                    videos: st.videos.push(t),
                    positional_only: false,
                },
            );
        }
    }
}

/// An invocation that names neither the activity-file flag nor one of the
/// informational flags cannot succeed: some grammar violation is reported.
pub proof fn lemma_missing_fit_fails(tokens: Seq<Seq<char>>)
    requires
        forall|i: int|
            0 <= i < tokens.len() ==> #[trigger] tokens[i] != "--fit"@ && tokens[i] != "-f"@
                && tokens[i] != "--help"@ && tokens[i] != "-h"@ && tokens[i] != "--version"@
                && tokens[i] != "-V"@,
    ensures
        spec_parse(tokens) is Err,
{
    lemma_parse_from_missing_fit(tokens, initial_state());
}

/// In an invocation that never names the output flag, a successful parse
/// leaves the output path unset.
pub proof fn lemma_parse_from_no_output(tokens: Seq<Seq<char>>, st: SpecParseState)
    requires
        st.output is None,
        forall|i: int|
            0 <= i < tokens.len() ==> #[trigger] tokens[i] != "--output"@ && tokens[i] != "-o"@,
    ensures
        spec_parse_from(tokens, st) matches Ok(SpecCliCommand::Run(raw)) ==> raw.output_file
            is None,
    decreases tokens.len(),
{
    if tokens.len() != 0 {
        let t = tokens[0];
        let rest = tokens.drop_first();
        assert forall|i: int| 0 <= i < rest.len() implies #[trigger] rest[i] != "--output"@
            && rest[i] != "-o"@ by {
            assert(rest[i] == tokens[i + 1]);
        }
        if st.positional_only {
            lemma_parse_from_no_output(
                rest,
                SpecParseState {
                    fit: st.fit,
                    metrics: st.metrics,
                    output: st.output,
                    videos: st.videos.push(t),
                    positional_only: true,
                },
            );
        } else if t == "--help"@ || t == "-h"@ || t == "--version"@ || t == "-V"@ {
        } else if t == "--metrics"@ || t == "-m"@ {
            if !st.metrics {
                lemma_parse_from_no_output(
                    rest,
                    SpecParseState {
                        fit: st.fit,
                        metrics: true,
                        output: st.output,
                        videos: st.videos,
                        positional_only: false,
                    },
                );
            }
        } else if t == "--fit"@ || t == "-f"@ {
            if st.fit is None && rest.len() != 0 {
                let rest2 = rest.drop_first();
                assert forall|i: int| 0 <= i < rest2.len() implies #[trigger] rest2[i]
                    != "--output"@ && rest2[i] != "-o"@ by {
                    assert(rest2[i] == tokens[i + 2]);
                }
                lemma_parse_from_no_output(
                    rest2,
                    SpecParseState {
                        fit: Some(rest[0]),
                        metrics: st.metrics,
                        output: st.output,
                        videos: st.videos,
                        positional_only: false,
                    },
                );
            }
        } else if t == "--"@ {
            lemma_parse_from_no_output(
                rest,
                SpecParseState {
                    fit: st.fit,
                    metrics: st.metrics,
                    output: st.output,
                    videos: st.videos,
                    positional_only: true,
                },
            );
        } else if !is_flag_token(t) {
            lemma_parse_from_no_output(
                rest,
                SpecParseState {
                    fit: st.fit,
                    metrics: st.metrics,
                    output: st.output,
                    videos: st.videos.push(t),
                    positional_only: false,
                },
            );
        }
    }
}

/// The usage text announces itself: its third line starts with `Usage:`.
pub proof fn lemma_usage_mentions_usage()
    ensures
        spec_usage_lines()[2].subrange(0, 6) == "Usage:"@,
{
    reveal_strlit("Usage: fit-video [OPTIONS] --fit <FIT_FILE> [VIDEO_FILES]...");
    reveal_strlit("Usage:");
    assert(spec_usage_lines()[2].subrange(0, 6) =~= "Usage:"@);
}

} // verus!
