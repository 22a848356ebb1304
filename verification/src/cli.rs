//! Texts of the command-line reports that list tags and periods.
use vstd::prelude::*;
use crate::dates::{days_before, days_window, parsed_day_number, window_ok, DateError};
use crate::text::{concat, lemma_concat_step, push_str, string_of};

verus! {

/// One tag with its applications: `[tag]`, then `  - app` per application.
pub open spec fn tag_block(tag: (String, Vec<String>)) -> Seq<char> {
    "["@ + tag.0@ + "]\n"@ + concat(tag.1@.map_values(|a: String| "  - "@ + a@ + "\n"@))
}

/// The listing of all tags.
pub open spec fn tags_text(tags: Seq<(String, Vec<String>)>) -> Seq<char> {
    concat(tags.map_values(|t: (String, Vec<String>)| tag_block(t)))
}

fn push_tag_block(out: &mut Vec<char>, tag: &(String, Vec<String>))
    ensures
        final(out)@ == old(out)@ + tag_block(*tag),
{
    push_str(out, "[");
    push_str(out, tag.0.as_str());
    push_str(out, "]\n");
    let ghost head = out@;
    let ghost lines = tag.1@.map_values(|a: String| "  - "@ + a@ + "\n"@);
    assert(lines.take(0) =~= Seq::<Seq<char>>::empty());
    let mut i: usize = 0;
    while i < tag.1.len()
        invariant
            i <= tag.1@.len(),
            lines == tag.1@.map_values(|a: String| "  - "@ + a@ + "\n"@),
            out@ == head + concat(lines.take(i as int)),
        decreases tag.1@.len() - i,
    {
        let ghost before = out@;
        push_str(out, "  - ");
        push_str(out, tag.1[i].as_str());
        push_str(out, "\n");
        proof {
            assert(out@ =~= before + lines[i as int]);
            lemma_concat_step(lines, i as int);
        }
        i = i + 1;
    }
    assert(lines.take(tag.1@.len() as int) =~= lines);
    assert(out@ =~= old(out)@ + tag_block(*tag));
}

/// The listing of all tags with their applications.
pub fn tags_listing(tags: &Vec<(String, Vec<String>)>) -> (r: String)
    ensures
        r@ == tags_text(tags@),
{
    let mut out: Vec<char> = Vec::new();
    let ghost blocks = tags@.map_values(|t: (String, Vec<String>)| tag_block(t));
    assert(blocks.take(0) =~= Seq::<Seq<char>>::empty());
    let mut i: usize = 0;
    while i < tags.len()
        invariant
            i <= tags@.len(),
            blocks == tags@.map_values(|t: (String, Vec<String>)| tag_block(t)),
            out@ == concat(blocks.take(i as int)),
        decreases tags@.len() - i,
    {
        push_tag_block(&mut out, &tags[i]);
        proof { lemma_concat_step(blocks, i as int); }
        i = i + 1;
    }
    assert(blocks.take(tags@.len() as int) =~= blocks);
    string_of(&out)
}

/// The label and length in days of a report: `Month`, 30 days, or `Week`, 7 days.
pub open spec fn report_kind(month: bool) -> (Seq<char>, int) {
    if month { ("Month"@, 30) } else { ("Week"@, 7) }
}

/// Law: a week report covers 7 days and a month report 30, today included; each is
/// labelled by its name.
pub proof fn lemma_report_periods()
    ensures
        report_kind(false) == ("Week"@, 7int),
        report_kind(true) == ("Month"@, 30int),
{
}

/// The period of a report: `(first day, today, label)`, a month or a week up to today.
pub fn report_window(month: bool) -> (r: Result<(String, String, String), DateError>)
    ensures
        match r {
            Ok(w) => w.2@ == report_kind(month).0 && window_ok(
                Ok((w.0, w.1)),
                report_kind(month).1 - 1,
            ),
            Err(e) => window_ok(Err(e), report_kind(month).1 - 1),
        },
        r matches Ok(w) ==> parsed_day_number(w.1@) is Some,
        !month ==> (r matches Ok(w) ==> w.2@ == "Week"@ && days_before(w.1@, 6) == Ok::<Seq<char>, DateError>(w.0@)),
        month ==> (r matches Ok(w) ==> w.2@ == "Month"@ && days_before(w.1@, 29) == Ok::<Seq<char>, DateError>(w.0@)),
        r matches Err(e) ==> e == DateError::OutOfRange,
{
    let days: u32 = if month { 30 } else { 7 };
    let label = if month { "Month".to_owned() } else { "Week".to_owned() };
    match days_window(days) {
        Ok(w) => Ok((w.0, w.1, label)),
        Err(e) => Err(e),
    }
}

} // verus!
