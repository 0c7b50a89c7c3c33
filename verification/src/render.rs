//! The renderers: deterministic text artifacts from the parsed model.
//!
//! The CSV inventory lists every raw entry, in parse order, under a fixed
//! header. The JSON schema document lists one object per section view
//! model with its field descriptors. Both are all-or-nothing: an
//! input-format error yields no output text at all.

use vstd::prelude::*;

use crate::model::{
    build_view_models, group_entries, spec_sections, spec_view_models_of, SectionModel,
    SectionView,
};
use crate::parse::{
    is_first_parse_error, line_wellformed, parse_line, spec_entries, Entry, EntryView, ParseError,
};
use crate::text::push_char;
use vstd::string::StrSliceExecFns;
use vstd::string::StringExecFns;

verus! {

/// The fixed CSV header row, without its line break.
pub open spec fn spec_csv_header() -> Seq<char> {
    "File,Section,Key,Value Example,Is it ReadOnly?,Should it be displayed"@
}

/// One CSV data row, without its line break: the raw file, section, key
/// and value verbatim, then the fixed placeholder columns.
pub open spec fn spec_csv_row(e: EntryView) -> Seq<char> {
    e.file + ","@ + e.section + ","@ + e.key + ","@ + e.value + ",false,true"@
}

/// The data rows, each ended by a line break.
pub open spec fn spec_csv_rows(es: Seq<EntryView>) -> Seq<char>
    decreases es.len(),
{
    if es.len() == 0 {
        Seq::<char>::empty()
    } else {
        spec_csv_row(es[0]) + "\n"@ + spec_csv_rows(es.skip(1))
    }
}

/// The whole CSV document: the header, then one row per raw entry, in
/// parse order, every line ended by a line break.
pub open spec fn spec_csv(es: Seq<EntryView>) -> Seq<char> {
    spec_csv_header() + "\n"@ + spec_csv_rows(es)
}

pub proof fn lemma_csv_rows_push(es: Seq<EntryView>, e: EntryView)
    ensures
        spec_csv_rows(es.push(e)) == spec_csv_rows(es) + spec_csv_row(e) + "\n"@,
    decreases es.len(),
{
    if es.len() == 0 {
        assert(es.push(e)[0] == e);
        assert(es.push(e).skip(1) =~= Seq::<EntryView>::empty());
        assert(spec_csv_rows(Seq::<EntryView>::empty()) == Seq::<char>::empty());
        assert(spec_csv_rows(es.push(e)) =~= spec_csv_rows(es) + spec_csv_row(e) + "\n"@);
    } else {
        assert(es.push(e)[0] == es[0]);
        assert(es.push(e).skip(1) =~= es.skip(1).push(e));
        lemma_csv_rows_push(es.skip(1), e);
        assert(spec_csv_rows(es.push(e)) =~= spec_csv_rows(es) + spec_csv_row(e) + "\n"@);
    }
}

/// Appends one data row and its line break.
fn append_csv_row(out: &mut String, e: &Entry)
    ensures
        final(out)@ == old(out)@ + spec_csv_row(e@) + "\n"@,
{
    out.append(e.file.as_str());
    out.append(",");
    out.append(e.section.as_str());
    out.append(",");
    out.append(e.key.as_str());
    out.append(",");
    out.append(e.value.as_str());
    out.append(",false,true");
    out.append("\n");
    proof {
        assert(out@ =~= old(out)@ + spec_csv_row(e@) + "\n"@);
    }
}

/// Renders the CSV inventory for the raw entries, in parse order.
pub fn render_csv(entries: &Vec<Entry>) -> (r: String)
    ensures
        r@ == spec_csv(entries.deep_view()),
{
    let mut out = String::from_str(
        "File,Section,Key,Value Example,Is it ReadOnly?,Should it be displayed",
    );
    out.append("\n");
    let mut i: usize = 0;
    proof {
        assert(spec_csv_rows(entries.deep_view().take(0)) == Seq::<char>::empty());
        assert(out@ =~= spec_csv_header() + "\n"@ + spec_csv_rows(entries.deep_view().take(0)));
    }
    while i < entries.len()
        invariant
            0 <= i <= entries@.len(),
            out@ == spec_csv_header() + "\n"@ + spec_csv_rows(entries.deep_view().take(i as int)),
        decreases entries@.len() - i,
    {
        proof {
            assert(entries.deep_view()[i as int] == entries@[i as int]@);
        }
        append_csv_row(&mut out, &entries[i]);
        proof {
            lemma_csv_rows_push(entries.deep_view().take(i as int), entries.deep_view()[i as int]);
            assert(entries.deep_view().take(i + 1) =~= entries.deep_view().take(i as int).push(
                entries.deep_view()[i as int],
            ));
            assert(out@ =~= spec_csv_header() + "\n"@ + spec_csv_rows(
                entries.deep_view().take(i + 1),
            ));
        }
        i = i + 1;
    }
    proof {
        assert(entries.deep_view().take(entries@.len() as int) =~= entries.deep_view());
    }
    out
}

/// How often `c` occurs in `s`.
pub open spec fn count_char(s: Seq<char>, c: char) -> int
    decreases s.len(),
{
    if s.len() == 0 {
        0
    } else {
        (if s[0] == c {
            1int
        } else {
            0int
        }) + count_char(s.skip(1), c)
    }
}

pub proof fn lemma_count_char_concat(a: Seq<char>, b: Seq<char>, c: char)
    ensures
        count_char(a + b, c) == count_char(a, c) + count_char(b, c),
    decreases a.len(),
{
    if a.len() == 0 {
        assert(a + b =~= b);
    } else {
        assert((a + b)[0] == a[0]);
        assert((a + b).skip(1) =~= a.skip(1) + b);
        lemma_count_char_concat(a.skip(1), b, c);
    }
}

pub proof fn lemma_count_char_absent(s: Seq<char>, c: char)
    requires
        forall|i: int| 0 <= i < s.len() ==> s[i] != c,
    ensures
        count_char(s, c) == 0,
    decreases s.len(),
{
    if s.len() == 0 {
    } else {
        assert forall|i: int| 0 <= i < s.skip(1).len() implies s.skip(1)[i] != c by {
            assert(s.skip(1)[i] == s[i + 1]);
        }
        lemma_count_char_absent(s.skip(1), c);
    }
}

proof fn lemma_count_newline_literals()
    ensures
        count_char("\n"@, '\n') == 1,
        count_char(","@, '\n') == 0,
        count_char(",false,true"@, '\n') == 0,
        count_char(spec_csv_header(), '\n') == 0,
{
    reveal_strlit("\n");
    assert("\n"@.skip(1) =~= Seq::<char>::empty());
    assert(count_char(Seq::<char>::empty(), '\n') == 0);
    assert(count_char("\n"@, '\n') == 1 + count_char("\n"@.skip(1), '\n'));
    assert(count_char("\n"@, '\n') == 1);
    reveal_strlit(",");
    lemma_count_char_absent(","@, '\n');
    reveal_strlit(",false,true");
    lemma_count_char_absent(",false,true"@, '\n');
    reveal_strlit("File,Section,Key,Value Example,Is it ReadOnly?,Should it be displayed");
    lemma_count_char_absent(spec_csv_header(), '\n');
}

/// A raw entry none of whose four fields holds a line break; every entry
/// parsed out of a single input line is such.
pub open spec fn entry_single_line(e: EntryView) -> bool {
    count_char(e.file, '\n') == 0 && count_char(e.section, '\n') == 0 && count_char(e.key, '\n')
        == 0 && count_char(e.value, '\n') == 0
}

/// For N raw entries the CSV document holds exactly N + 1 line breaks:
/// one after the header and one after each data row, none inside a field.
pub proof fn lemma_csv_line_count(es: Seq<EntryView>)
    requires
        forall|i: int| 0 <= i < es.len() ==> entry_single_line(#[trigger] es[i]),
    ensures
        count_char(spec_csv(es), '\n') == es.len() + 1,
{
    lemma_count_newline_literals();
    lemma_csv_rows_line_count(es);
    lemma_count_char_concat(spec_csv_header(), "\n"@, '\n');
    lemma_count_char_concat(spec_csv_header() + "\n"@, spec_csv_rows(es), '\n');
}

proof fn lemma_csv_rows_line_count(es: Seq<EntryView>)
    requires
        forall|i: int| 0 <= i < es.len() ==> entry_single_line(#[trigger] es[i]),
    ensures
        count_char(spec_csv_rows(es), '\n') == es.len(),
    decreases es.len(),
{
    lemma_count_newline_literals();
    if es.len() == 0 {
    } else {
        let e = es[0];
        lemma_count_char_concat(e.file, ","@, '\n');
        lemma_count_char_concat(e.file + ","@, e.section, '\n');
        lemma_count_char_concat(e.file + ","@ + e.section, ","@, '\n');
        lemma_count_char_concat(e.file + ","@ + e.section + ","@, e.key, '\n');
        lemma_count_char_concat(e.file + ","@ + e.section + ","@ + e.key, ","@, '\n');
        lemma_count_char_concat(e.file + ","@ + e.section + ","@ + e.key + ","@, e.value, '\n');
        lemma_count_char_concat(
            e.file + ","@ + e.section + ","@ + e.key + ","@ + e.value,
            ",false,true"@,
            '\n',
        );
        assert(count_char(spec_csv_row(e), '\n') == 0);
        lemma_count_char_concat(spec_csv_row(e), "\n"@, '\n');
        assert forall|i: int| 0 <= i < es.skip(1).len() implies entry_single_line(
            #[trigger] es.skip(1)[i],
        ) by {
            assert(es.skip(1)[i] == es[i + 1]);
        }
        lemma_csv_rows_line_count(es.skip(1));
        lemma_count_char_concat(spec_csv_row(e) + "\n"@, spec_csv_rows(es.skip(1)), '\n');
    }
}

/// One character of a JSON string body: quotation marks and backslashes
/// are escaped, everything else stands verbatim.
pub open spec fn spec_json_escaped_char(c: char) -> Seq<char> {
    if c == '"' || c == '\\' {
        seq!['\\', c]
    } else {
        seq![c]
    }
}

/// The escaped body of a JSON string.
pub open spec fn spec_json_escape(s: Seq<char>) -> Seq<char>
    decreases s.len(),
{
    if s.len() == 0 {
        Seq::<char>::empty()
    } else {
        spec_json_escaped_char(s[0]) + spec_json_escape(s.skip(1))
    }
}

pub proof fn lemma_json_escape_push(s: Seq<char>, c: char)
    ensures
        spec_json_escape(s.push(c)) == spec_json_escape(s) + spec_json_escaped_char(c),
    decreases s.len(),
{
    if s.len() == 0 {
        assert(s.push(c)[0] == c);
        assert(s.push(c).skip(1) =~= Seq::<char>::empty());
        assert(spec_json_escape(Seq::<char>::empty()) == Seq::<char>::empty());
        assert(spec_json_escape(s.push(c)) =~= spec_json_escape(s) + spec_json_escaped_char(c));
    } else {
        assert(s.push(c)[0] == s[0]);
        assert(s.push(c).skip(1) =~= s.skip(1).push(c));
        lemma_json_escape_push(s.skip(1), c);
        assert(spec_json_escape(s.push(c)) =~= spec_json_escape(s) + spec_json_escaped_char(c));
    }
}

/// A quoted JSON string.
pub open spec fn spec_json_string(s: Seq<char>) -> Seq<char> {
    "\""@ + spec_json_escape(s) + "\""@
}

/// One field descriptor as a JSON object.
pub open spec fn spec_json_field(f: crate::model::FieldView) -> Seq<char> {
    "{\"Name\":"@ + spec_json_string(f.name) + ",\"DisplayName\":"@ + spec_json_string(
        f.display_name,
    ) + ",\"Description\":"@ + spec_json_string(f.description) + ",\"Key\":"@ + spec_json_string(
        f.key,
    ) + "}"@
}

/// The comma-joined field objects.
pub open spec fn spec_json_fields(fs: Seq<crate::model::FieldView>) -> Seq<char>
    decreases fs.len(),
{
    if fs.len() == 0 {
        Seq::<char>::empty()
    } else if fs.len() == 1 {
        spec_json_field(fs[0])
    } else {
        spec_json_field(fs[0]) + ","@ + spec_json_fields(fs.skip(1))
    }
}

/// One section view model as a JSON object.
pub open spec fn spec_json_section(q: crate::model::QualifiedSectionView) -> Seq<char> {
    "{\"Name\":"@ + spec_json_string(q.name) + ",\"DisplayName\":"@ + spec_json_string(
        q.display_name,
    ) + ",\"Description\":"@ + spec_json_string(q.description) + ",\"Fields\":["@
        + spec_json_fields(q.fields) + "]}"@
}

/// The comma-joined section objects.
pub open spec fn spec_json_sections(qs: Seq<crate::model::QualifiedSectionView>) -> Seq<char>
    decreases qs.len(),
{
    if qs.len() == 0 {
        Seq::<char>::empty()
    } else if qs.len() == 1 {
        spec_json_section(qs[0])
    } else {
        spec_json_section(qs[0]) + ","@ + spec_json_sections(qs.skip(1))
    }
}

/// The whole JSON document: an array of section objects.
pub open spec fn spec_json(qs: Seq<crate::model::QualifiedSectionView>) -> Seq<char> {
    "["@ + spec_json_sections(qs) + "]"@
}

pub proof fn lemma_json_fields_push(fs: Seq<crate::model::FieldView>, f: crate::model::FieldView)
    ensures
        fs.len() == 0 ==> spec_json_fields(fs.push(f)) == spec_json_field(f),
        fs.len() > 0 ==> spec_json_fields(fs.push(f)) == spec_json_fields(fs) + ","@
            + spec_json_field(f),
    decreases fs.len(),
{
    if fs.len() == 0 {
        assert(fs.push(f)[0] == f);
        assert(fs.push(f).len() == 1);
    } else {
        assert(fs.push(f)[0] == fs[0]);
        assert(fs.push(f).skip(1) =~= fs.skip(1).push(f));
        lemma_json_fields_push(fs.skip(1), f);
        if fs.len() == 1 {
            assert(spec_json_fields(fs.push(f)) =~= spec_json_fields(fs) + ","@
                + spec_json_field(f));
        } else {
            assert(spec_json_fields(fs.push(f)) =~= spec_json_fields(fs) + ","@
                + spec_json_field(f));
        }
    }
}

pub proof fn lemma_json_sections_push(
    qs: Seq<crate::model::QualifiedSectionView>,
    q: crate::model::QualifiedSectionView,
)
    ensures
        qs.len() == 0 ==> spec_json_sections(qs.push(q)) == spec_json_section(q),
        qs.len() > 0 ==> spec_json_sections(qs.push(q)) == spec_json_sections(qs) + ","@
            + spec_json_section(q),
    decreases qs.len(),
{
    if qs.len() == 0 {
        assert(qs.push(q)[0] == q);
        assert(qs.push(q).len() == 1);
    } else {
        assert(qs.push(q)[0] == qs[0]);
        assert(qs.push(q).skip(1) =~= qs.skip(1).push(q));
        lemma_json_sections_push(qs.skip(1), q);
        if qs.len() == 1 {
            assert(spec_json_sections(qs.push(q)) =~= spec_json_sections(qs) + ","@
                + spec_json_section(q));
        } else {
            assert(spec_json_sections(qs.push(q)) =~= spec_json_sections(qs) + ","@
                + spec_json_section(q));
        }
    }
}

/// Appends the quoted, escaped JSON form of `s`.
fn append_json_string(out: &mut String, s: &str)
    ensures
        final(out)@ == old(out)@ + spec_json_string(s@),
{
    out.append("\"");
    let n: usize = s.unicode_len();
    let mut i: usize = 0;
    let ghost mid = out@;
    proof {
        assert(spec_json_escape(s@.take(0)) == Seq::<char>::empty());
        assert(out@ =~= mid + spec_json_escape(s@.take(0)));
    }
    while i < n
        invariant
            0 <= i <= n,
            n == s@.len(),
            out@ == mid + spec_json_escape(s@.take(i as int)),
        decreases n - i,
    {
        let c = s.get_char(i);
        proof {
            lemma_json_escape_push(s@.take(i as int), c);
            assert(s@.take(i + 1) =~= s@.take(i as int).push(c));
        }
        if c == '"' || c == '\\' {
            push_char(out, '\\');
            push_char(out, c);
            proof {
                assert(out@ =~= mid + spec_json_escape(s@.take(i + 1)));
            }
        } else {
            push_char(out, c);
            proof {
                assert(out@ =~= mid + spec_json_escape(s@.take(i + 1)));
            }
        }
        i = i + 1;
    }
    proof {
        assert(s@.take(n as int) =~= s@);
    }
    out.append("\"");
    proof {
        assert(out@ =~= old(out)@ + spec_json_string(s@));
    }
}

/// Appends one field descriptor as a JSON object.
fn append_json_field(out: &mut String, f: &crate::model::Field)
    ensures
        final(out)@ == old(out)@ + spec_json_field(f@),
{
    out.append("{\"Name\":");
    append_json_string(out, f.name.as_str());
    out.append(",\"DisplayName\":");
    append_json_string(out, f.display_name.as_str());
    out.append(",\"Description\":");
    append_json_string(out, f.description.as_str());
    out.append(",\"Key\":");
    append_json_string(out, f.key.as_str());
    out.append("}");
    proof {
        assert(out@ =~= old(out)@ + spec_json_field(f@));
    }
}

/// Appends one section view model as a JSON object.
fn append_json_section(out: &mut String, q: &crate::model::QualifiedSection)
    ensures
        final(out)@ == old(out)@ + spec_json_section(q@),
{
    out.append("{\"Name\":");
    append_json_string(out, q.name.as_str());
    out.append(",\"DisplayName\":");
    append_json_string(out, q.display_name.as_str());
    out.append(",\"Description\":");
    append_json_string(out, q.description.as_str());
    out.append(",\"Fields\":[");
    let ghost mid = out@;
    let mut i: usize = 0;
    proof {
        assert(q.fields.deep_view().take(0) =~= Seq::<crate::model::FieldView>::empty());
        assert(out@ =~= mid + spec_json_fields(q.fields.deep_view().take(0)));
    }
    while i < q.fields.len()
        invariant
            0 <= i <= q.fields@.len(),
            out@ == mid + spec_json_fields(q.fields.deep_view().take(i as int)),
        decreases q.fields@.len() - i,
    {
        proof {
            assert(q.fields.deep_view()[i as int] == q.fields@[i as int]@);
        }
        if i > 0 {
            out.append(",");
        }
        append_json_field(out, &q.fields[i]);
        proof {
            lemma_json_fields_push(
                q.fields.deep_view().take(i as int),
                q.fields.deep_view()[i as int],
            );
            assert(q.fields.deep_view().take(i + 1) =~= q.fields.deep_view().take(i as int).push(
                q.fields.deep_view()[i as int],
            ));
            assert(out@ =~= mid + spec_json_fields(q.fields.deep_view().take(i + 1)));
        }
        i = i + 1;
    }
    proof {
        assert(q.fields.deep_view().take(q.fields@.len() as int) =~= q.fields.deep_view());
    }
    out.append("]}");
    proof {
        assert(out@ =~= old(out)@ + spec_json_section(q@));
    }
}

/// Renders the JSON schema document: an array with one object per section
/// view model, in the given order.
pub fn render_json(sections: &Vec<crate::model::QualifiedSection>) -> (r: String)
    ensures
        r@ == spec_json(sections.deep_view()),
{
    let mut out = String::from_str("[");
    let ghost mid = out@;
    let mut i: usize = 0;
    proof {
        assert(sections.deep_view().take(0) =~= Seq::<
            crate::model::QualifiedSectionView,
        >::empty());
        assert(out@ =~= mid + spec_json_sections(sections.deep_view().take(0)));
    }
    while i < sections.len()
        invariant
            0 <= i <= sections@.len(),
            mid == "["@,
            out@ == mid + spec_json_sections(sections.deep_view().take(i as int)),
        decreases sections@.len() - i,
    {
        proof {
            assert(sections.deep_view()[i as int] == sections@[i as int]@);
        }
        if i > 0 {
            out.append(",");
        }
        append_json_section(&mut out, &sections[i]);
        proof {
            lemma_json_sections_push(
                sections.deep_view().take(i as int),
                sections.deep_view()[i as int],
            );
            assert(sections.deep_view().take(i + 1) =~= sections.deep_view().take(i as int).push(
                sections.deep_view()[i as int],
            ));
            assert(out@ =~= mid + spec_json_sections(sections.deep_view().take(i + 1)));
        }
        i = i + 1;
    }
    proof {
        assert(sections.deep_view().take(sections@.len() as int) =~= sections.deep_view());
    }
    out.append("]");
    proof {
        assert(out@ =~= spec_json(sections.deep_view()));
    }
    out
}

/// Renders the CSV inventory for a flattened line. Any input-format error
/// aborts the whole run: no output text exists at all.
pub fn render_csv_for_line(line: &str) -> (r: Result<String, ParseError>)
    ensures
        r is Ok <==> line_wellformed(line@),
        r is Ok ==> r.unwrap()@ == spec_csv(spec_entries(line@)),
        r is Err ==> is_first_parse_error(line@, r.unwrap_err()),
{
    match parse_line(line) {
        Result::Ok(entries) => Result::Ok(render_csv(&entries)),
        Result::Err(err) => Result::Err(err),
    }
}

/// Renders the JSON schema document for a flattened line. Any input-format
/// error aborts the whole run: no output text exists at all.
pub fn render_json_for_line(line: &str) -> (r: Result<String, ParseError>)
    ensures
        r is Ok <==> line_wellformed(line@),
        r is Ok ==> r.unwrap()@ == spec_json(spec_view_models_of(spec_sections(line@))),
        r is Err ==> is_first_parse_error(line@, r.unwrap_err()),
{
    match parse_line(line) {
        Result::Ok(entries) => {
            let models = group_entries(&entries);
            let views = build_view_models(&models);
            Result::Ok(render_json(&views))
        },
        Result::Err(err) => Result::Err(err),
    }
}

/// Chooses the single representative section model: the one with the
/// fewest pairs; among equally small ones, the earliest in the
/// collection's order, which makes the choice deterministic.
pub fn select_smallest(models: &Vec<SectionModel>) -> (r: Option<usize>)
    ensures
        r is None <==> models@.len() == 0,
        r is Some ==> {
            let i = r.unwrap() as int;
            &&& 0 <= i < models@.len()
            &&& forall|j: int|
                0 <= j < models@.len() ==> models.deep_view()[i].pairs.len() <= (
                #[trigger] models.deep_view()[j]).pairs.len()
            &&& forall|j: int|
                0 <= j < i ==> (#[trigger] models.deep_view()[j]).pairs.len()
                    > models.deep_view()[i].pairs.len()
        },
{
    if models.len() == 0 {
        return Option::None;
    }
    let mut best: usize = 0;
    let mut best_len: usize = models[0].pairs.len();
    proof {
        assert(models.deep_view()[0] == models@[0]@);
    }
    let mut j: usize = 1;
    while j < models.len()
        invariant
            1 <= j <= models@.len(),
            0 <= best < j,
            best_len == models.deep_view()[best as int].pairs.len(),
            forall|k: int|
                0 <= k < j ==> best_len <= (#[trigger] models.deep_view()[k]).pairs.len(),
            forall|k: int|
                0 <= k < best ==> (#[trigger] models.deep_view()[k]).pairs.len() > best_len,
        decreases models@.len() - j,
    {
        proof {
            assert(models.deep_view()[j as int] == models@[j as int]@);
        }
        if models[j].pairs.len() < best_len {
            best = j;
            best_len = models[j].pairs.len();
        }
        j = j + 1;
    }
    Option::Some(best)
}

} // verus!
