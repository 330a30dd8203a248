//! The Markdown report each finished job writes beside its outputs.

use vstd::prelude::*;
use crate::command::ForgeReport;
use crate::text::{dec, push_decimal_u128, push_str};

verus! {

/// Each text of a list between `pre` and `post`, one after another.
pub open spec fn items_spec(l: Seq<Seq<char>>, pre: Seq<char>, post: Seq<char>) -> Seq<char>
    decreases l.len(),
{
    if l.len() == 0 {
        Seq::<char>::empty()
    } else {
        items_spec(l.drop_last(), pre, post) + pre + l.last() + post
    }
}

fn push_items(r: &mut String, l: &Vec<String>, pre: &str, post: &str)
    ensures
        final(r)@ == old(r)@ + items_spec(l.deep_view(), pre@, post@),
{
    let ghost lv = l.deep_view();
    let mut i: usize = 0;
    while i < l.len()
        invariant
            i <= l.len(),
            lv == l.deep_view(),
            r@ == old(r)@ + items_spec(lv.take(i as int), pre@, post@),
        decreases l.len() - i,
    {
        proof {
            assert(lv.take(i + 1).drop_last() =~= lv.take(i as int));
            assert(lv.take(i + 1).last() == l@[i as int]@);
        }
        push_str(r, pre);
        push_str(r, l[i].as_str());
        push_str(r, post);
        i += 1;
        assert(r@ =~= old(r)@ + items_spec(lv.take(i as int), pre@, post@));
    }
    assert(lv.take(l.len() as int) =~= lv);
}

/// A section: its heading, then its items; nothing where it has none and is
/// left out when empty.
pub open spec fn section_spec(
    heading: Seq<char>,
    l: Seq<Seq<char>>,
    pre: Seq<char>,
    post: Seq<char>,
) -> Seq<char> {
    heading + items_spec(l, pre, post)
}

/// An optional section: left out when it has no items.
pub open spec fn optional_section_spec(heading: Seq<char>, l: Seq<Seq<char>>) -> Seq<char> {
    if l.len() == 0 {
        Seq::<char>::empty()
    } else {
        section_spec(heading, l, "- "@, "\n"@)
    }
}

/// The Markdown report of a job.
pub open spec fn markdown_spec(r: ForgeReport, size_before: Seq<char>, size_after: Seq<char>) -> Seq<
    char,
> {
    "# Forge Report: "@ + r.job_name@ + "\n\n"@ + "- Duration: "@ + dec(r.duration_ms as nat)
        + " ms\n"@ + "- Size: "@ + size_before + " -> "@ + size_after + "\n"@ + section_spec(
        "\n## Inputs\n"@,
        r.input_files.deep_view(),
        "- `"@,
        "`\n"@,
    ) + section_spec("\n## Outputs\n"@, r.output_files.deep_view(), "- `"@, "`\n"@)
        + section_spec("\n## Operations\n"@, r.operations_performed.deep_view(), "- "@, "\n"@)
        + section_spec("\n## Commands\n"@, r.commands_run.deep_view(), "- `"@, "`\n"@)
        + optional_section_spec("\n## Quality Settings\n"@, r.quality_settings.deep_view())
        + optional_section_spec("\n## Warnings\n"@, r.warnings.deep_view())
}

/// Renders a job's report as Markdown: name, duration and sizes (shown as
/// given), then inputs, outputs, operations and commands, and the quality
/// settings and warnings where there are any.
pub fn render_markdown(report: &ForgeReport, size_before: &str, size_after: &str) -> (r: String)
    ensures
        r@ == markdown_spec(*report, size_before@, size_after@),
{
    let mut out = String::new();
    push_str(&mut out, "# Forge Report: ");
    push_str(&mut out, report.job_name.as_str());
    push_str(&mut out, "\n\n");
    push_str(&mut out, "- Duration: ");
    push_decimal_u128(&mut out, report.duration_ms);
    push_str(&mut out, " ms\n");
    push_str(&mut out, "- Size: ");
    push_str(&mut out, size_before);
    push_str(&mut out, " -> ");
    push_str(&mut out, size_after);
    push_str(&mut out, "\n");
    push_str(&mut out, "\n## Inputs\n");
    push_items(&mut out, &report.input_files, "- `", "`\n");
    push_str(&mut out, "\n## Outputs\n");
    push_items(&mut out, &report.output_files, "- `", "`\n");
    push_str(&mut out, "\n## Operations\n");
    push_items(&mut out, &report.operations_performed, "- ", "\n");
    push_str(&mut out, "\n## Commands\n");
    push_items(&mut out, &report.commands_run, "- `", "`\n");
    let ghost mid = out@;
    if report.quality_settings.len() > 0 {
        push_str(&mut out, "\n## Quality Settings\n");
        push_items(&mut out, &report.quality_settings, "- ", "\n");
    }
    assert(out@ =~= mid + optional_section_spec(
        "\n## Quality Settings\n"@,
        report.quality_settings.deep_view(),
    ));
    let ghost mid2 = out@;
    if report.warnings.len() > 0 {
        push_str(&mut out, "\n## Warnings\n");
        push_items(&mut out, &report.warnings, "- ", "\n");
    }
    assert(out@ =~= mid2 + optional_section_spec("\n## Warnings\n"@, report.warnings.deep_view()));
    assert(out@ =~= markdown_spec(*report, size_before@, size_after@));
    out
}

} // verus!
