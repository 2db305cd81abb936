//! Metrics extraction: given what decoding an activity file yielded, report
//! the distinct field names found across its records, in ascending
//! lexicographic order.
//!
//! The FIT decoder (the `fitparser` crate) runs outside this library, at the
//! caller's file-reading edge: its failure paths can abort on malformed input
//! instead of returning, so no contract admitting every byte buffer can be
//! stated for it. The caller hands in the outcome as plain values -- the file
//! could not be opened, the content did not decode, or the decoded records'
//! field names -- and everything from there on is verified for every outcome.

use vstd::prelude::*;

use crate::decimal::{dec_string, spec_dec_chars};
use crate::order::{
    lemma_lex_connected, lemma_lex_transitive, lemma_strictly_sorted_unique, lex_lt, str_eq,
    str_lt, strictly_sorted,
};

verus! {

/// The set of field names occurring anywhere in the given records.
pub open spec fn record_field_names(recs: Seq<Seq<Seq<char>>>) -> Set<Seq<char>> {
    Set::new(
        |n: Seq<char>|
            exists|a: int, b: int| 0 <= a < recs.len() && 0 <= b < recs[a].len() && recs[a][b] == n,
    )
}

/// `q` lists exactly the given names, in strictly ascending order.
pub open spec fn is_sorted_listing(q: Seq<Seq<char>>, names: Set<Seq<char>>) -> bool {
    &&& strictly_sorted(q)
    &&& forall|n: Seq<char>| #[trigger] q.contains(n) <==> names.contains(n)
}

/// The strictly ascending listing of the given names. By
/// `lemma_strictly_sorted_unique` there is at most one such listing.
pub open spec fn sorted_field_names(names: Set<Seq<char>>) -> Seq<Seq<char>> {
    choose|q: Seq<Seq<char>>| is_sorted_listing(q, names)
}

/// The number of names in the strictly sorted list that come before `name`.
fn lower_bound(list: &Vec<String>, name: &String) -> (i: usize)
    requires
        strictly_sorted(list.deep_view()),
    ensures
        i <= list@.len(),
        forall|j: int| 0 <= j < i ==> lex_lt(#[trigger] list.deep_view()[j], name@),
        i < list@.len() ==> !lex_lt(list.deep_view()[i as int], name@),
{
    let mut i: usize = 0;
    while i < list.len()
        invariant
            i <= list.len(),
            forall|j: int| 0 <= j < i ==> lex_lt(#[trigger] list.deep_view()[j], name@),
        decreases list.len() - i,
    {
        if !str_lt(list[i].as_str(), name.as_str()) {
            return i;
        }
        i = i + 1;
    }
    i
}

/// Inserts `name` into a strictly sorted list of names, keeping it strictly
/// sorted; a name already present is not added again.
fn insert_sorted(list: &mut Vec<String>, name: &String)
    requires
        strictly_sorted(old(list).deep_view()),
    ensures
        strictly_sorted(final(list).deep_view()),
        forall|n: Seq<char>|
            #[trigger] final(list).deep_view().contains(n) <==> (old(list).deep_view().contains(n)
                || n == name@),
{
    let i = lower_bound(list, name);
    let ghost dv = list.deep_view();
    if i < list.len() {
        if str_eq(list[i].as_str(), name.as_str()) {
            proof {
                assert(dv[i as int] == name@);
                assert(dv.contains(name@));
            }
            return;
        }
    }
    proof {
        if i < dv.len() {
            lemma_lex_connected(dv[i as int], name@);
            assert(lex_lt(name@, dv[i as int]));
        }
    }
    list.insert(i, name.clone());
    proof {
        let new_dv = list.deep_view();
        assert(new_dv =~= dv.insert(i as int, name@)) by {
            assert(list@ == old(list)@.insert(i as int, *name));
            assert forall|k: int| 0 <= k < new_dv.len() implies new_dv[k] == dv.insert(
                i as int,
                name@,
            )[k] by {
                if k < i {
                    assert(list@[k] == old(list)@[k]);
                } else if k == i {
                    assert(list@[k] == *name);
                } else {
                    assert(list@[k] == old(list)@[k - 1]);
                }
            }
        }
        let ins = dv.insert(i as int, name@);
        assert forall|p: int, q: int| 0 <= p < q < ins.len() implies lex_lt(ins[p], ins[q]) by {
            if q < i {
                assert(lex_lt(dv[p], dv[q]));
            } else if q == i {
                assert(lex_lt(dv[p], name@));
            } else if p < i {
                assert(lex_lt(dv[p], dv[q - 1]));
            } else if p == i {
                assert(lex_lt(name@, dv[i as int]));
                if q - 1 > i {
                    assert(lex_lt(dv[i as int], dv[q - 1]));
                    lemma_lex_transitive(name@, dv[i as int], dv[q - 1]);
                }
            } else {
                assert(lex_lt(dv[p - 1], dv[q - 1]));
            }
        }
        assert forall|n: Seq<char>| #[trigger] ins.contains(n) implies (dv.contains(n) || n
            == name@) by {
            let k = choose|k: int| 0 <= k < ins.len() && ins[k] == n;
            if k < i {
                assert(dv[k] == n);
            } else if k > i {
                assert(dv[k - 1] == n);
            }
        }
        assert forall|n: Seq<char>| dv.contains(n) implies ins.contains(n) by {
            let k = choose|k: int| 0 <= k < dv.len() && dv[k] == n;
            if k < i {
                assert(ins[k] == n);
            } else {
                assert(ins[k + 1] == n);
            }
        }
        assert(ins.contains(name@)) by {
            assert(ins[i as int] == name@);
        }
    }
}

/// Collects the distinct field names of the given records into a strictly
/// ascending list.
pub fn collect_metrics(records: &Vec<Vec<String>>) -> (r: Vec<String>)
    ensures
        is_sorted_listing(r.deep_view(), record_field_names(records.deep_view())),
{
    let ghost recs = records.deep_view();
    let mut out: Vec<String> = Vec::new();
    let mut i: usize = 0;
    while i < records.len()
        invariant
            i <= records.len(),
            recs == records.deep_view(),
            strictly_sorted(out.deep_view()),
            forall|n: Seq<char>|
                #[trigger] out.deep_view().contains(n) <==> exists|a: int, b: int|
                    0 <= a < i && 0 <= b < recs[a].len() && recs[a][b] == n,
        decreases records.len() - i,
    {
        let rec = &records[i];
        let mut j: usize = 0;
        while j < rec.len()
            invariant
                i < records.len(),
                j <= rec.len(),
                recs == records.deep_view(),
                rec == &records@[i as int],
                strictly_sorted(out.deep_view()),
                forall|n: Seq<char>|
                    #[trigger] out.deep_view().contains(n) <==> ((exists|a: int, b: int|
                        0 <= a < i && 0 <= b < recs[a].len() && recs[a][b] == n) || (exists|b: int|
                        0 <= b < j && recs[i as int][b] == n)),
            decreases rec.len() - j,
        {
            let ghost old_out = out.deep_view();
            insert_sorted(&mut out, &rec[j]);
            proof {
                assert(rec@[j as int]@ == recs[i as int][j as int]);
                assert forall|n: Seq<char>| #[trigger] out.deep_view().contains(n) implies ((
                exists|a: int, b: int| 0 <= a < i && 0 <= b < recs[a].len() && recs[a][b] == n) || (
                exists|b: int| 0 <= b < j + 1 && recs[i as int][b] == n)) by {
                    if !old_out.contains(n) {
                        assert(recs[i as int][j as int] == n);
                    }
                }
                assert forall|n: Seq<char>|
                    ((exists|a: int, b: int| 0 <= a < i && 0 <= b < recs[a].len() && recs[a][b]
                        == n) || (exists|b: int|
                        0 <= b < j + 1 && recs[i as int][b] == n)) implies #[trigger] out.deep_view().contains(
                    n,
                ) by {
                    if exists|b: int| 0 <= b < j + 1 && recs[i as int][b] == n {
                        let b = choose|b: int| 0 <= b < j + 1 && recs[i as int][b] == n;
                        if b < j {
                            assert(old_out.contains(n));
                        } else {
                            assert(n == rec@[j as int]@);
                        }
                    } else {
                        assert(old_out.contains(n));
                    }
                }
            }
            j = j + 1;
        }
        proof {
            assert forall|n: Seq<char>| #[trigger] out.deep_view().contains(n) implies exists|
                a: int,
                b: int,
            | 0 <= a < i + 1 && 0 <= b < recs[a].len() && recs[a][b] == n by {
                if exists|b: int| 0 <= b < j && recs[i as int][b] == n {
                    let b = choose|b: int| 0 <= b < j && recs[i as int][b] == n;
                    assert(0 <= i < i + 1 && 0 <= b < recs[i as int].len() && recs[i as int][b]
                        == n);
                }
            }
            assert forall|n: Seq<char>|
                (exists|a: int, b: int| 0 <= a < i + 1 && 0 <= b < recs[a].len() && recs[a][b]
                    == n) implies #[trigger] out.deep_view().contains(n) by {
                let (a, b) = choose|a: int, b: int|
                    0 <= a < i + 1 && 0 <= b < recs[a].len() && recs[a][b] == n;
                if a < i {
                } else {
                    assert(j == rec@.len());
                    assert(recs[i as int].len() == rec@.len());
                    assert(0 <= b < j && recs[i as int][b] == n);
                }
            }
        }
        i = i + 1;
    }
    proof {
        assert forall|n: Seq<char>| #[trigger] out.deep_view().contains(n) <==> record_field_names(
            recs,
        ).contains(n) by {
            assert(record_field_names(recs).contains(n) == (exists|a: int, b: int|
                0 <= a < recs.len() && 0 <= b < recs[a].len() && recs[a][b] == n));
        }
    }
    out
}

/// What opening and decoding the activity file yielded, handed in by the
/// caller as plain values. The library does no file I/O and does not run the
/// FIT decoder; it is verified for every value of this type.
#[derive(Debug)]
pub enum FitData {
    /// The file could not be opened.
    Unopened,
    /// The content did not decode as FIT data, or was too short to try (see
    /// `has_fit_header_length`).
    Invalid,
    /// The decoded data records: for each, in order, the names of its fields.
    Records(Vec<Vec<String>>),
}

/// Specification-level image of `FitData`.
pub enum SpecFitData {
    Unopened,
    Invalid,
    Records(Seq<Seq<Seq<char>>>),
}

impl View for FitData {
    type V = SpecFitData;

    open spec fn view(&self) -> SpecFitData {
        match self {
            FitData::Unopened => SpecFitData::Unopened,
            FitData::Invalid => SpecFitData::Invalid,
            FitData::Records(recs) => SpecFitData::Records(recs.deep_view()),
        }
    }
}

/// A FIT file begins with a header of at least twelve bytes: shorter content
/// cannot be a FIT file, and the caller reports it invalid without consulting
/// the decoder (whose error paths can abort on such buffers).
pub fn has_fit_header_length(data: &Vec<u8>) -> (r: bool)
    ensures
        r == (data@.len() >= 12),
{
    data.len() >= 12
}

/// What one run of metrics extraction prints on standard output, given what
/// decoding the activity file yielded: the fixed header, then either a fixed
/// explanatory message or the sorted field names with their count, then a
/// closing line.
pub open spec fn spec_metrics_lines(data: SpecFitData) -> Seq<Seq<char>> {
    let header = seq!["Metrics found in FIT file:"@, "========================="@];
    let closing = seq![""@, "Processing complete!"@];
    match data {
        SpecFitData::Unopened => header + seq!["No metrics found (file could not be opened)"@]
            + closing,
        SpecFitData::Invalid => header + seq!["No metrics found (invalid or empty FIT file)"@]
            + closing,
        SpecFitData::Records(recs) => {
            let names = sorted_field_names(record_field_names(recs));
            header + (if names.len() == 0 {
                seq!["No metrics found in this FIT file."@] + closing
            } else {
                names.map_values(|n: Seq<char>| "  - "@ + n) + seq![
                    ""@,
                    "Total metrics found: "@ + spec_dec_chars(names.len() as int),
                ] + closing
            })
        },
    }
}

fn push_line(lines: &mut Vec<String>, s: String)
    ensures
        final(lines).deep_view() == old(lines).deep_view().push(s@),
{
    lines.push(s);
    proof {
        assert(lines.deep_view() =~= old(lines).deep_view().push(s@));
    }
}

/// Produces the metrics listing for an activity file whose decode outcome is
/// `data`: the fixed failure message when the file could not be opened or did
/// not decode, otherwise the sorted distinct field names with their count.
/// Never fails: every outcome is a printable listing.
pub fn extract_metrics(data: &FitData) -> (r: Vec<String>)
    ensures
        r.deep_view() == spec_metrics_lines(data@),
{
    let mut lines: Vec<String> = Vec::new();
    push_line(&mut lines, String::from_str("Metrics found in FIT file:"));
    push_line(&mut lines, String::from_str("========================="));
    match data {
        FitData::Unopened => {
            push_line(&mut lines, String::from_str("No metrics found (file could not be opened)"));
            push_line(&mut lines, String::from_str(""));
            push_line(&mut lines, String::from_str("Processing complete!"));
            proof {
                assert(lines.deep_view() =~= spec_metrics_lines(data@));
            }
        },
        FitData::Invalid => {
            push_line(
                &mut lines,
                String::from_str("No metrics found (invalid or empty FIT file)"),
            );
            push_line(&mut lines, String::from_str(""));
            push_line(&mut lines, String::from_str("Processing complete!"));
            proof {
                assert(lines.deep_view() =~= spec_metrics_lines(data@));
            }
        },
        FitData::Records(records) => {
            let names = collect_metrics(records);
            proof {
                let all = record_field_names(records.deep_view());
                assert(is_sorted_listing(names.deep_view(), all));
                assert(exists|q: Seq<Seq<char>>| is_sorted_listing(q, all));
                let c = sorted_field_names(all);
                assert(is_sorted_listing(c, all));
                lemma_strictly_sorted_unique(names.deep_view(), c);
                assert(names.deep_view() == sorted_field_names(all));
            }
            if names.len() == 0 {
                push_line(&mut lines, String::from_str("No metrics found in this FIT file."));
                push_line(&mut lines, String::from_str(""));
                push_line(&mut lines, String::from_str("Processing complete!"));
                proof {
                    assert(lines.deep_view() =~= spec_metrics_lines(data@));
                }
            } else {
                let ghost snames = names.deep_view();
                let ghost base = lines.deep_view();
                let mut k: usize = 0;
                while k < names.len()
                    invariant
                        k <= names.len(),
                        snames == names.deep_view(),
                        lines.deep_view() == base + snames.subrange(0, k as int).map_values(
                            |n: Seq<char>| "  - "@ + n,
                        ),
                    decreases names.len() - k,
                {
                    let line = String::from_str("  - ").concat(names[k].as_str());
                    push_line(&mut lines, line);
                    proof {
                        assert(lines.deep_view() =~= base + snames.subrange(0, k + 1).map_values(
                            |n: Seq<char>| "  - "@ + n,
                        ));
                    }
                    k = k + 1;
                }
                push_line(&mut lines, String::from_str(""));
                let count = dec_string(names.len());
                let total = String::from_str("Total metrics found: ").concat(count.as_str());
                push_line(&mut lines, total);
                push_line(&mut lines, String::from_str(""));
                push_line(&mut lines, String::from_str("Processing complete!"));
                proof {
                    assert(snames.subrange(0, snames.len() as int) =~= snames);
                    assert(lines.deep_view() =~= spec_metrics_lines(data@));
                }
            }
        },
    }
    lines
}

/// The metrics listing is a function of the decode outcome alone: two runs on
/// the same outcome print the same lines.
pub proof fn lemma_metrics_idempotent(l1: Seq<Seq<char>>, l2: Seq<Seq<char>>, data: SpecFitData)
    requires
        l1 == spec_metrics_lines(data),
        l2 == spec_metrics_lines(data),
    ensures
        l1 == l2,
{
}

/// The listing for decoded records depends only on which field names occur,
/// not on how they are grouped into records, repeated, or ordered within one:
/// record lists with equal name sets print the same lines.
pub proof fn lemma_metrics_lines_depend_on_names(r1: Seq<Seq<Seq<char>>>, r2: Seq<Seq<Seq<char>>>)
    requires
        record_field_names(r1) == record_field_names(r2),
    ensures
        spec_metrics_lines(SpecFitData::Records(r1)) == spec_metrics_lines(
            SpecFitData::Records(r2),
        ),
{
}

} // verus!
