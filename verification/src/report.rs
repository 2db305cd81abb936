//! What a run prints when it is not in metrics mode: the resolved
//! configuration is echoed, since combining data with video is not
//! implemented. The lines are pinned, so that callers know exactly what a
//! valid invocation reports.

use vstd::prelude::*;

use crate::cli::{
    default_output, initial_state, spec_parse, spec_resolve, AppArgs, SpecAppArgs, SpecArgError,
    SpecCliCommand, SpecRawArgs, SpecValidationError,
};

verus! {

/// What a non-metrics run prints on standard output: the activity file, the
/// output path, and each video file, then a closing line.
pub open spec fn spec_combine_lines(a: SpecAppArgs) -> Seq<Seq<char>> {
    seq![
        "Processing FIT file: "@ + a.fit_file,
        "Output will be saved to: "@ + a.output_file,
        "Video files to process:"@,
    ] + a.videos.map_values(|v: Seq<char>| "  - "@ + v) + seq!["Processing complete!"@]
}

/// Renders the non-metrics report for a validated configuration.
pub fn combine_lines(args: &AppArgs) -> (r: Vec<String>)
    ensures
        r.deep_view() == spec_combine_lines(args@),
{
    let mut lines: Vec<String> = Vec::new();
    lines.push(String::from_str("Processing FIT file: ").concat(args.fit_file.as_str()));
    lines.push(String::from_str("Output will be saved to: ").concat(args.output_file.as_str()));
    lines.push(String::from_str("Video files to process:"));
    let ghost base = lines.deep_view();
    let ghost vids = args.videos.deep_view();
    let mut k: usize = 0;
    proof {
        assert(base =~= seq![
            "Processing FIT file: "@ + args@.fit_file,
            "Output will be saved to: "@ + args@.output_file,
            "Video files to process:"@,
        ]);
        assert(lines.deep_view() =~= base + vids.subrange(0, 0).map_values(
            |v: Seq<char>| "  - "@ + v,
        ));
    }
    while k < args.videos.len()
        invariant
            k <= args.videos.len(),
            vids == args.videos.deep_view(),
            lines.deep_view() == base + vids.subrange(0, k as int).map_values(
                |v: Seq<char>| "  - "@ + v,
            ),
        decreases args.videos.len() - k,
    {
        let line = String::from_str("  - ").concat(args.videos[k].as_str());
        let ghost prev = lines.deep_view();
        lines.push(line);
        proof {
            assert(lines.deep_view() =~= prev.push(line@));
            assert(line@ == "  - "@ + vids[k as int]);
            assert(lines.deep_view() =~= base + vids.subrange(0, k + 1).map_values(
                |v: Seq<char>| "  - "@ + v,
            ));
        }
        k = k + 1;
    }
    let ghost prev = lines.deep_view();
    lines.push(String::from_str("Processing complete!"));
    proof {
        assert(lines.deep_view() =~= prev.push("Processing complete!"@));
        assert(vids.subrange(0, vids.len() as int) =~= vids);
        assert(lines.deep_view() =~= spec_combine_lines(args@));
    }
    lines
}

/// What a metrics-mode run prints before the listing.
pub open spec fn spec_metrics_banner(fit_file: Seq<char>) -> Seq<char> {
    "Extracting metrics from FIT file: "@ + fit_file
}

/// Renders the metrics-mode banner.
pub fn metrics_banner(args: &AppArgs) -> (s: String)
    ensures
        s@ == spec_metrics_banner(args@.fit_file),
{
    String::from_str("Extracting metrics from FIT file: ").concat(args.fit_file.as_str())
}

/// A valid invocation that never names the output flag reports the default
/// output path: parsing leaves the output unset, validation fills in
/// `movie.mp4`, and the second printed line names it.
pub proof fn lemma_default_output(
    tokens: Seq<Seq<char>>,
    raw: SpecRawArgs,
    fit_exists: bool,
    video_exists: Seq<bool>,
    resolved: SpecAppArgs,
)
    requires
        forall|i: int|
            0 <= i < tokens.len() ==> #[trigger] tokens[i] != "--output"@ && tokens[i] != "-o"@,
        spec_parse(tokens) == Ok::<SpecCliCommand, SpecArgError>(SpecCliCommand::Run(raw)),
        spec_resolve(raw, fit_exists, video_exists) == Ok::<SpecAppArgs, SpecValidationError>(
            resolved,
        ),
    ensures
        resolved.output_file == default_output(),
        spec_combine_lines(resolved)[1] == "Output will be saved to: movie.mp4"@,
{
    crate::cli::lemma_parse_from_no_output(tokens, initial_state());
    reveal_strlit("Output will be saved to: ");
    reveal_strlit("movie.mp4");
    reveal_strlit("Output will be saved to: movie.mp4");
    assert("Output will be saved to: "@ + "movie.mp4"@ =~= "Output will be saved to: movie.mp4"@);
}

} // verus!
