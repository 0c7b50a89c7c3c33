//! The hierarchical section model and the rendering view models.
//!
//! Grouping is a pure fold over the raw entries in encounter order: the
//! first occurrence of a `(file, section)` pair creates its section model,
//! every later occurrence appends to the section's ordered pair list.
//! File and section names are compared byte-for-byte; duplicate keys are
//! preserved as separate pairs.

use vstd::prelude::*;

use crate::normalize::{
    key_to_camelcase, path_to_name, spec_camel_key, spec_path_name,
};
use crate::parse::{
    is_first_parse_error, line_wellformed, parse_line, spec_entries, Entry, EntryView, ParseError,
};
use vstd::string::StringExecFns;

verus! {

/// The grouped, ordered facts of one `(file, section)` pair.
pub ghost struct SectionView {
    pub file: Seq<char>,
    pub section: Seq<char>,
    pub pairs: Seq<(Seq<char>, Seq<char>)>,
}

/// The section model: one `(file, section)` pair with its ordered
/// `(key, value)` pairs, insertion order preserved.
#[derive(Debug)]
pub struct SectionModel {
    pub file: String,
    pub section: String,
    pub pairs: Vec<(String, String)>,
}

impl View for SectionModel {
    type V = SectionView;

    open spec fn view(&self) -> SectionView {
        SectionView { file: self.file@, section: self.section@, pairs: self.pairs.deep_view() }
    }
}

impl DeepView for SectionModel {
    type V = SectionView;

    open spec fn deep_view(&self) -> SectionView {
        self.view()
    }
}

/// The position of the section of `(file, section)` in `ss`, or `ss.len()`
/// if that pair has not been seen yet.
pub open spec fn section_index(ss: Seq<SectionView>, file: Seq<char>, section: Seq<char>) -> int
    decreases ss.len(),
{
    if ss.len() == 0 {
        0
    } else if ss[0].file == file && ss[0].section == section {
        0
    } else {
        1 + section_index(ss.skip(1), file, section)
    }
}

pub proof fn lemma_section_index(ss: Seq<SectionView>, file: Seq<char>, section: Seq<char>)
    ensures
        0 <= section_index(ss, file, section) <= ss.len(),
        section_index(ss, file, section) < ss.len() ==> {
            let i = section_index(ss, file, section);
            ss[i].file == file && ss[i].section == section
        },
        forall|j: int|
            0 <= j < section_index(ss, file, section) ==> !((#[trigger] ss[j]).file == file
                && ss[j].section == section),
    decreases ss.len(),
{
    if ss.len() == 0 {
    } else if ss[0].file == file && ss[0].section == section {
    } else {
        lemma_section_index(ss.skip(1), file, section);
        assert forall|j: int|
            0 <= j < section_index(ss, file, section) implies !((#[trigger] ss[j]).file == file
            && ss[j].section == section) by {
            if j > 0 {
                assert(ss[j] == ss.skip(1)[j - 1]);
            }
        }
    }
}

/// Appends one fact: to its section's ordered pair list if its
/// `(file, section)` pair has been seen, else as a new section at the end.
pub open spec fn spec_add_entry(ss: Seq<SectionView>, e: EntryView) -> Seq<SectionView> {
    let i = section_index(ss, e.file, e.section);
    if i < ss.len() {
        ss.update(
            i,
            SectionView {
                file: ss[i].file,
                section: ss[i].section,
                pairs: ss[i].pairs.push((e.key, e.value)),
            },
        )
    } else {
        ss.push(SectionView { file: e.file, section: e.section, pairs: seq![(e.key, e.value)] })
    }
}

/// Grouping as a pure fold over the facts in encounter order.
pub open spec fn spec_group(es: Seq<EntryView>) -> Seq<SectionView>
    decreases es.len(),
{
    if es.len() == 0 {
        Seq::<SectionView>::empty()
    } else {
        spec_add_entry(spec_group(es.drop_last()), es.last())
    }
}

/// The section models of a well-formed line.
pub open spec fn spec_sections(line: Seq<char>) -> Seq<SectionView> {
    spec_group(spec_entries(line))
}

/// The position of the section model matching `e`, or `models.len()` if
/// that `(file, section)` pair has not been seen yet.
fn find_section(models: &Vec<SectionModel>, e: &Entry) -> (idx: usize)
    ensures
        idx as int == section_index(models.deep_view(), e@.file, e@.section),
{
    let mut idx: usize = 0;
    while idx < models.len()
        invariant
            0 <= idx <= models@.len(),
            forall|j: int|
                0 <= j < idx ==> !((#[trigger] models.deep_view()[j]).file == e@.file
                    && models.deep_view()[j].section == e@.section),
        decreases models@.len() - idx,
    {
        proof {
            assert(models.deep_view()[idx as int] == models@[idx as int]@);
        }
        if models[idx].file == e.file && models[idx].section == e.section {
            proof {
                lemma_section_index(models.deep_view(), e@.file, e@.section);
            }
            return idx;
        }
        idx = idx + 1;
    }
    proof {
        lemma_section_index(models.deep_view(), e@.file, e@.section);
    }
    idx
}

/// Groups raw entries into section models, in encounter order.
pub fn group_entries(entries: &Vec<Entry>) -> (r: Vec<SectionModel>)
    ensures
        r.deep_view() == spec_group(entries.deep_view()),
{
    let mut models: Vec<SectionModel> = Vec::new();
    let mut i: usize = 0;
    proof {
        assert(entries.deep_view().take(0) =~= Seq::<EntryView>::empty());
    }
    while i < entries.len()
        invariant
            0 <= i <= entries@.len(),
            models.deep_view() == spec_group(entries.deep_view().take(i as int)),
        decreases entries@.len() - i,
    {
        let ghost old_models = models.deep_view();
        let e = &entries[i];
        proof {
            assert(entries.deep_view()[i as int] == entries@[i as int]@);
        }
        let key = e.key.clone();
        let value = e.value.clone();
        let ghost ev = entries.deep_view()[i as int];
        let idx = find_section(&models, e);
        proof {
            assert(idx as int == section_index(old_models, ev.file, ev.section));
        }
        if idx < models.len() {
            let ghost before = models@;
            let mut m = models.remove(idx);
            m.pairs.push((key, value));
            let ghost m_view = m.deep_view();
            models.insert(idx, m);
            proof {
                assert(models@ =~= before.update(idx as int, models@[idx as int]));
                assert(m_view.pairs =~= old_models[idx as int].pairs.push((key@, value@)));
                assert(m_view == SectionView {
                    file: old_models[idx as int].file,
                    section: old_models[idx as int].section,
                    pairs: old_models[idx as int].pairs.push((ev.key, ev.value)),
                });
                assert(models.deep_view() =~= old_models.update(idx as int, m_view));
            }
        } else {
            let file = e.file.clone();
            let section = e.section.clone();
            let mut pairs: Vec<(String, String)> = Vec::new();
            pairs.push((key, value));
            proof {
                assert(pairs.deep_view() =~= seq![(ev.key, ev.value)]);
            }
            let m = SectionModel { file, section, pairs };
            let ghost m_view = m.deep_view();
            models.push(m);
            proof {
                assert(m_view == SectionView {
                    file: ev.file,
                    section: ev.section,
                    pairs: seq![(ev.key, ev.value)],
                });
                assert(models.deep_view() =~= old_models.push(m_view));
            }
        }
        proof {
            assert(models.deep_view() =~= spec_add_entry(old_models, entries.deep_view()[i as int]));
            assert(entries.deep_view().take(i + 1).drop_last() =~= entries.deep_view().take(
                i as int,
            ));
            assert(entries.deep_view().take(i + 1).last() == entries.deep_view()[i as int]);
        }
        i = i + 1;
    }
    proof {
        assert(entries.deep_view().take(entries@.len() as int) =~= entries.deep_view());
    }
    models
}

/// The fixed placeholder description embedded in every rendered descriptor.
pub open spec fn spec_description() -> Seq<char> {
    "Temp_Description"@
}

/// The descriptor rendered for one key of a section.
pub ghost struct FieldView {
    pub name: Seq<char>,
    pub display_name: Seq<char>,
    pub description: Seq<char>,
    pub key: Seq<char>,
}

/// One field descriptor of a rendering view model: the normalized
/// identifier, the raw key as display name, a placeholder description,
/// and the fully-qualified lookup key embedded verbatim.
#[derive(Debug)]
pub struct Field {
    pub name: String,
    pub display_name: String,
    pub description: String,
    pub key: String,
}

impl View for Field {
    type V = FieldView;

    open spec fn view(&self) -> FieldView {
        FieldView {
            name: self.name@,
            display_name: self.display_name@,
            description: self.description@,
            key: self.key@,
        }
    }
}

impl DeepView for Field {
    type V = FieldView;

    open spec fn deep_view(&self) -> FieldView {
        self.view()
    }
}

/// The descriptor derived from one raw key under a qualified section.
pub open spec fn spec_field(key: Seq<char>, qualified_section: Seq<char>) -> FieldView {
    FieldView {
        name: spec_camel_key(key),
        display_name: key,
        description: spec_description(),
        key: qualified_section + "~"@ + key,
    }
}

impl Field {
    /// Builds the descriptor for one raw key. The value is opaque example
    /// data and takes no part in the descriptor.
    pub fn new(key: &str, _value: &str, qualified_section: &str) -> (r: Self)
        ensures
            r@ == spec_field(key@, qualified_section@),
    {
        let mut lookup = String::from_str(qualified_section);
        lookup.append("~");
        lookup.append(key);
        Field {
            name: key_to_camelcase(key),
            display_name: String::from_str(key),
            description: String::from_str("Temp_Description"),
            key: lookup,
        }
    }
}

/// The rendering view model of one section.
pub ghost struct QualifiedSectionView {
    pub name: Seq<char>,
    pub display_name: Seq<char>,
    pub description: Seq<char>,
    pub fields: Seq<FieldView>,
}

/// The rendering view model of one section: the type name derived from the
/// qualified path, a decorated display name, a placeholder description,
/// and one field descriptor per `(key, value)` pair, in stored order.
#[derive(Debug)]
pub struct QualifiedSection {
    pub name: String,
    pub display_name: String,
    pub description: String,
    pub fields: Vec<Field>,
}

impl View for QualifiedSection {
    type V = QualifiedSectionView;

    open spec fn view(&self) -> QualifiedSectionView {
        QualifiedSectionView {
            name: self.name@,
            display_name: self.display_name@,
            description: self.description@,
            fields: self.fields.deep_view(),
        }
    }
}

impl DeepView for QualifiedSection {
    type V = QualifiedSectionView;

    open spec fn deep_view(&self) -> QualifiedSectionView {
        self.view()
    }
}

/// The field descriptors of the given ordered pairs, in order.
pub open spec fn spec_fields_of(
    pairs: Seq<(Seq<char>, Seq<char>)>,
    qualified_section: Seq<char>,
) -> Seq<FieldView> {
    pairs.map_values(|p: (Seq<char>, Seq<char>)| spec_field(p.0, qualified_section))
}

/// The view model derived from a qualified section name and its pairs.
pub open spec fn spec_view_model(
    qualified_section: Seq<char>,
    pairs: Seq<(Seq<char>, Seq<char>)>,
) -> QualifiedSectionView {
    QualifiedSectionView {
        name: spec_path_name(qualified_section),
        display_name: "*"@ + qualified_section + "*"@,
        description: spec_description(),
        fields: spec_fields_of(pairs, qualified_section),
    }
}

impl QualifiedSection {
    /// Builds the view model for one section from its qualified name and
    /// its ordered `(key, value)` pairs.
    pub fn new(qualified_section: String, keys: Vec<(String, String)>) -> (r: Self)
        ensures
            r@ == spec_view_model(qualified_section@, keys.deep_view()),
    {
        let name = path_to_name(qualified_section.as_str());
        let mut display = String::from_str("*");
        display.append(qualified_section.as_str());
        display.append("*");
        let mut fields: Vec<Field> = Vec::new();
        let mut i: usize = 0;
        proof {
            assert(fields.deep_view() =~= spec_fields_of(
                keys.deep_view().take(0),
                qualified_section@,
            ));
        }
        while i < keys.len()
            invariant
                0 <= i <= keys@.len(),
                fields.deep_view() == spec_fields_of(
                    keys.deep_view().take(i as int),
                    qualified_section@,
                ),
            decreases keys@.len() - i,
        {
            proof {
                assert(keys.deep_view()[i as int] == (keys@[i as int].0@, keys@[i as int].1@));
            }
            let f = Field::new(keys[i].0.as_str(), keys[i].1.as_str(), qualified_section.as_str());
            let ghost fv = f@;
            let ghost prev = fields.deep_view();
            fields.push(f);
            proof {
                assert(fields.deep_view() =~= prev.push(fv));
                assert(fv == spec_field(keys.deep_view()[i as int].0, qualified_section@));
                assert(fields.deep_view() =~= spec_fields_of(
                    keys.deep_view().take(i + 1),
                    qualified_section@,
                ));
            }
            i = i + 1;
        }
        proof {
            assert(keys.deep_view().take(keys@.len() as int) =~= keys.deep_view());
        }
        QualifiedSection {
            name,
            display_name: display,
            description: String::from_str("Temp_Description"),
            fields,
        }
    }
}

/// The qualified name of a section: file and section joined by `~`.
pub open spec fn spec_qualified_name(s: SectionView) -> Seq<char> {
    s.file + "~"@ + s.section
}

/// The view model rendered for one section model.
pub open spec fn spec_section_view_model(s: SectionView) -> QualifiedSectionView {
    spec_view_model(spec_qualified_name(s), s.pairs)
}

/// The view models rendered for a collection of section models, in order.
pub open spec fn spec_view_models_of(ss: Seq<SectionView>) -> Seq<QualifiedSectionView> {
    ss.map_values(|s: SectionView| spec_section_view_model(s))
}

/// Builds one rendering view model per section model, in order.
pub fn build_view_models(models: &Vec<SectionModel>) -> (r: Vec<QualifiedSection>)
    ensures
        r.deep_view() == spec_view_models_of(models.deep_view()),
{
    let mut out: Vec<QualifiedSection> = Vec::new();
    let mut i: usize = 0;
    proof {
        assert(out.deep_view() =~= spec_view_models_of(models.deep_view().take(0)));
    }
    while i < models.len()
        invariant
            0 <= i <= models@.len(),
            out.deep_view() == spec_view_models_of(models.deep_view().take(i as int)),
        decreases models@.len() - i,
    {
        let m = &models[i];
        proof {
            assert(models.deep_view()[i as int] == models@[i as int]@);
        }
        let mut qualified = m.file.clone();
        qualified.append("~");
        qualified.append(m.section.as_str());
        let pairs = clone_pairs(&m.pairs);
        let q = QualifiedSection::new(qualified, pairs);
        let ghost qv = q@;
        let ghost prev = out.deep_view();
        out.push(q);
        proof {
            assert(out.deep_view() =~= prev.push(qv));
            assert(qv == spec_section_view_model(models.deep_view()[i as int]));
            assert(out.deep_view() =~= spec_view_models_of(models.deep_view().take(i + 1)));
        }
        i = i + 1;
    }
    proof {
        assert(models.deep_view().take(models@.len() as int) =~= models.deep_view());
    }
    out
}

/// Copies a section's ordered pairs.
fn clone_pairs(pairs: &Vec<(String, String)>) -> (r: Vec<(String, String)>)
    ensures
        r.deep_view() == pairs.deep_view(),
{
    let mut r: Vec<(String, String)> = Vec::new();
    let mut i: usize = 0;
    proof {
        assert(r.deep_view() =~= pairs.deep_view().take(0));
    }
    while i < pairs.len()
        invariant
            0 <= i <= pairs@.len(),
            r.deep_view() == pairs.deep_view().take(i as int),
        decreases pairs@.len() - i,
    {
        let k = pairs[i].0.clone();
        let v = pairs[i].1.clone();
        proof {
            assert(k@ == pairs@[i as int].0@);
            assert(v@ == pairs@[i as int].1@);
        }
        let ghost prev = r.deep_view();
        r.push((k, v));
        proof {
            assert((k, v).deep_view() == (k@, v@));
            assert(r.deep_view() =~= prev.push((k@, v@)));
            assert((k@, v@) == pairs.deep_view()[i as int]);
            assert(r.deep_view() =~= pairs.deep_view().take(i + 1));
        }
        i = i + 1;
    }
    proof {
        assert(pairs.deep_view().take(pairs@.len() as int) =~= pairs.deep_view());
    }
    r
}

/// Parses the flattened line and groups its entries into section models.
/// Any input-format error aborts the whole run with no partial result.
pub fn handle_line(line: String) -> (r: Result<Vec<SectionModel>, ParseError>)
    ensures
        r is Ok <==> line_wellformed(line@),
        r is Ok ==> r.unwrap().deep_view() == spec_sections(line@),
        r is Err ==> is_first_parse_error(line@, r.unwrap_err()),
{
    match parse_line(line.as_str()) {
        Result::Ok(entries) => Result::Ok(group_entries(&entries)),
        Result::Err(err) => Result::Err(err),
    }
}

} // verus!
