//! Laws that relate several components, stated and proved once.

use vstd::multiset::Multiset;
use vstd::prelude::*;

use crate::chars::{spec_is_delim, spec_is_digit, DelimSet};
use crate::model::{
    lemma_section_index, section_index, spec_fields_of, spec_group,
    spec_qualified_name, spec_section_view_model, spec_sections, spec_view_models_of, FieldView,
    QualifiedSectionView, SectionView,
};
use crate::normalize::{spec_camel_key, spec_pascal_words, spec_title_word};
use crate::parse::{
    entry_wellformed, line_wellformed, spec_entries, spec_entry, spec_entry_texts,
    spec_qualified_key, EntryView,
};
use crate::split::{find_delim, lacks_char, lemma_find_delim, lemma_split_no_delim, lemma_split_pieces_lack_char};

verus! {

/// The identifier normalizer is idempotent on already-normalized input:
/// a token without delimiter characters whose casing already satisfies
/// the per-word rule, and which does not begin with a digit, normalizes
/// to itself.
pub proof fn lemma_camel_key_fixed_point(s: Seq<char>)
    requires
        forall|i: int| 0 <= i < s.len() ==> !spec_is_delim(DelimSet::Word, s[i]),
        s == spec_title_word(s),
        s.len() > 0 ==> !spec_is_digit(s[0]),
    ensures
        spec_camel_key(s) == s,
{
    lemma_split_no_delim(s, DelimSet::Word);
    assert(seq![s].skip(1) =~= Seq::<Seq<char>>::empty());
    assert(spec_pascal_words(Seq::<Seq<char>>::empty()) == Seq::<char>::empty());
    assert(spec_pascal_words(seq![s]) == spec_title_word(s) + Seq::<char>::empty());
    assert(spec_title_word(s) + Seq::<char>::empty() =~= spec_title_word(s));
}

/// The lookup key of one raw entry: its qualified-section identifier and
/// its key, joined by the section separator.
pub open spec fn spec_entry_lookup_key(e: EntryView) -> Seq<char> {
    e.file + "~"@ + e.section + "~"@ + e.key
}

/// The lookup keys of the raw entries, in input order.
pub open spec fn spec_entry_lookup_keys(es: Seq<EntryView>) -> Seq<Seq<char>> {
    es.map_values(|e: EntryView| spec_entry_lookup_key(e))
}

/// The lookup keys embedded in one section's rendered descriptors.
pub open spec fn spec_section_lookup_keys(s: SectionView) -> Seq<Seq<char>> {
    s.pairs.map_values(
        |p: (Seq<char>, Seq<char>)| s.file + "~"@ + s.section + "~"@ + p.0,
    )
}

pub open spec fn spec_section_key_table(ss: Seq<SectionView>) -> Seq<Seq<Seq<char>>> {
    ss.map_values(|s: SectionView| spec_section_lookup_keys(s))
}

/// All lookup keys of the grouped sections, section by section.
pub open spec fn spec_sections_lookup_keys(ss: Seq<SectionView>) -> Seq<Seq<char>> {
    spec_section_key_table(ss).flatten()
}

/// The `Key` values embedded in one rendered view model.
pub open spec fn spec_field_keys(q: QualifiedSectionView) -> Seq<Seq<char>> {
    q.fields.map_values(|f: FieldView| f.key)
}

pub open spec fn spec_model_key_table(qs: Seq<QualifiedSectionView>) -> Seq<Seq<Seq<char>>> {
    qs.map_values(|q: QualifiedSectionView| spec_field_keys(q))
}

/// All `Key` values embedded in the rendered view models, in order.
pub open spec fn spec_model_lookup_keys(qs: Seq<QualifiedSectionView>) -> Seq<Seq<char>> {
    spec_model_key_table(qs).flatten()
}

/// The lookup key of a well-formed entry reassembles its qualified key
/// verbatim: splitting the key on the first two `~` loses nothing.
pub proof fn lemma_entry_lookup_key(e: Seq<char>)
    requires
        entry_wellformed(e),
    ensures
        spec_entry_lookup_key(spec_entry(e)) == spec_qualified_key(e),
{
    lemma_find_delim(e, DelimSet::KeyValue);
    let qk = spec_qualified_key(e);
    lemma_find_delim(qk, DelimSet::Qualifier);
    let i1 = find_delim(qk, DelimSet::Qualifier);
    let rest = qk.skip(i1 + 1);
    lemma_find_delim(rest, DelimSet::Qualifier);
    let i2 = find_delim(rest, DelimSet::Qualifier);
    reveal_strlit("~");
    assert(qk[i1] == '~');
    assert(rest[i2] == '~');
    assert(spec_entry_lookup_key(spec_entry(e)) =~= qk);
}

/// The view models embed, section by section, exactly the grouped
/// sections' lookup keys.
proof fn lemma_model_keys_eq_section_keys(ss: Seq<SectionView>)
    ensures
        spec_model_lookup_keys(spec_view_models_of(ss)) == spec_sections_lookup_keys(ss),
{
    let models = spec_model_key_table(spec_view_models_of(ss));
    let sections = spec_section_key_table(ss);
    assert forall|i: int| 0 <= i < ss.len() implies models[i] == sections[i] by {
        let s = ss[i];
        let q = spec_section_view_model(s);
        assert(q.fields == spec_fields_of(s.pairs, spec_qualified_name(s)));
        assert(spec_field_keys(q) =~= spec_section_lookup_keys(s));
    }
    assert(models =~= sections);
}

/// Appending one element to the piece at `i` adds exactly that element to
/// the flattened contents.
proof fn lemma_flatten_update_push<A>(ss: Seq<Seq<A>>, i: int, x: A)
    requires
        0 <= i < ss.len(),
    ensures
        ss.update(i, ss[i].push(x)).flatten().to_multiset() == ss.flatten().to_multiset().insert(
            x,
        ),
    decreases ss.len(),
{
    broadcast use vstd::seq_lib::group_to_multiset_ensures;
    broadcast use vstd::multiset::group_multiset_axioms;

    let ss2 = ss.update(i, ss[i].push(x));
    if i == 0 {
        assert(ss2.drop_first() =~= ss.drop_first());
        assert(ss2.first() == ss.first().push(x));
        assert(ss2.flatten() == ss2.first() + ss2.drop_first().flatten());
        assert(ss.flatten() == ss.first() + ss.drop_first().flatten());
        vstd::seq_lib::lemma_multiset_commutative(ss.first().push(x), ss.drop_first().flatten());
        vstd::seq_lib::lemma_multiset_commutative(ss.first(), ss.drop_first().flatten());
        assert(ss.first().push(x).to_multiset() =~= ss.first().to_multiset().insert(x));
        assert(ss2.flatten().to_multiset() =~= ss.flatten().to_multiset().insert(x));
    } else {
        assert(ss2.first() == ss.first());
        assert(ss2.drop_first() =~= ss.drop_first().update(i - 1, ss.drop_first()[i - 1].push(x)));
        lemma_flatten_update_push(ss.drop_first(), i - 1, x);
        assert(ss2.flatten() == ss2.first() + ss2.drop_first().flatten());
        assert(ss.flatten() == ss.first() + ss.drop_first().flatten());
        vstd::seq_lib::lemma_multiset_commutative(ss.first(), ss2.drop_first().flatten());
        vstd::seq_lib::lemma_multiset_commutative(ss.first(), ss.drop_first().flatten());
        assert(ss2.flatten().to_multiset() =~= ss.flatten().to_multiset().insert(x));
    }
}

/// Grouping neither loses, invents nor duplicates a lookup key.
proof fn lemma_group_keys(es: Seq<EntryView>)
    ensures
        spec_sections_lookup_keys(spec_group(es)).to_multiset() == spec_entry_lookup_keys(
            es,
        ).to_multiset(),
    decreases es.len(),
{
    broadcast use vstd::seq_lib::group_to_multiset_ensures;
    broadcast use vstd::multiset::group_multiset_axioms;

    if es.len() == 0 {
        assert(spec_section_key_table(spec_group(es)) =~= Seq::<Seq<Seq<char>>>::empty());
        assert(spec_sections_lookup_keys(spec_group(es)) == Seq::<Seq<char>>::empty());
        assert(spec_entry_lookup_keys(es) =~= Seq::<Seq<char>>::empty());
    } else {
        let prefix = es.drop_last();
        let e = es.last();
        lemma_group_keys(prefix);
        let g = spec_group(prefix);
        let ek = spec_entry_lookup_key(e);
        assert(spec_entry_lookup_keys(es) =~= spec_entry_lookup_keys(prefix).push(ek));
        let ks = spec_section_key_table(g);
        let idx = section_index(g, e.file, e.section);
        lemma_section_index(g, e.file, e.section);
        if idx < g.len() {
            let s = g[idx];
            let s2 = SectionView {
                file: s.file,
                section: s.section,
                pairs: s.pairs.push((e.key, e.value)),
            };
            assert(spec_group(es) == g.update(idx, s2));
            assert(spec_section_lookup_keys(s2) =~= spec_section_lookup_keys(s).push(ek));
            assert(spec_section_key_table(spec_group(es)) =~= ks.update(idx, ks[idx].push(ek)));
            lemma_flatten_update_push(ks, idx, ek);
            assert(spec_sections_lookup_keys(spec_group(es)).to_multiset()
                == spec_entry_lookup_keys(es).to_multiset());
        } else {
            let s2 = SectionView {
                file: e.file,
                section: e.section,
                pairs: seq![(e.key, e.value)],
            };
            assert(spec_group(es) == g.push(s2));
            assert(spec_section_lookup_keys(s2) =~= seq![ek]);
            assert(spec_section_key_table(spec_group(es)) =~= ks.push(seq![ek]));
            ks.lemma_flatten_push(seq![ek]);
            vstd::seq_lib::lemma_multiset_commutative(ks.flatten(), seq![ek]);
            assert(seq![ek] =~= Seq::<Seq<char>>::empty().push(ek));
            assert(Seq::<Seq<char>>::empty().to_multiset() =~= Multiset::<Seq<char>>::empty());
            assert(spec_sections_lookup_keys(spec_group(es)).to_multiset() =~= spec_sections_lookup_keys(
                g,
            ).to_multiset().insert(ek));
            assert(spec_sections_lookup_keys(spec_group(es)).to_multiset()
                == spec_entry_lookup_keys(es).to_multiset());
        }
    }
}

/// Every entry parsed out of a line without line breaks has line-break-free
/// fields: the parser only ever hands out characters of the line.
pub proof fn lemma_line_entries_single_line(line: Seq<char>)
    requires
        line_wellformed(line),
        lacks_char(line, '\n'),
    ensures
        forall|i: int|
            0 <= i < spec_entries(line).len() ==> crate::render::entry_single_line(
                #[trigger] spec_entries(line)[i],
            ),
{
    lemma_split_pieces_lack_char(line, DelimSet::Entry, '\n');
    let texts = spec_entry_texts(line);
    assert forall|i: int| 0 <= i < spec_entries(line).len() implies crate::render::entry_single_line(
        #[trigger] spec_entries(line)[i],
    ) by {
        let e = texts[i];
        let ev = spec_entry(e);
        assert(entry_wellformed(e));
        assert(lacks_char(e, '\n'));
        let ie = find_delim(e, DelimSet::KeyValue);
        lemma_find_delim(e, DelimSet::KeyValue);
        let qk = e.take(ie);
        let value = e.skip(ie + 1);
        assert forall|j: int| 0 <= j < qk.len() implies #[trigger] qk[j] != '\n' by {
            assert(qk[j] == e[j]);
        }
        assert forall|j: int| 0 <= j < value.len() implies #[trigger] value[j] != '\n' by {
            assert(value[j] == e[j + ie + 1]);
        }
        let i1 = find_delim(qk, DelimSet::Qualifier);
        lemma_find_delim(qk, DelimSet::Qualifier);
        let rest = qk.skip(i1 + 1);
        assert forall|j: int| 0 <= j < rest.len() implies #[trigger] rest[j] != '\n' by {
            assert(rest[j] == qk[j + i1 + 1]);
        }
        let i2 = find_delim(rest, DelimSet::Qualifier);
        lemma_find_delim(rest, DelimSet::Qualifier);
        assert forall|j: int| 0 <= j < ev.file.len() implies #[trigger] ev.file[j] != '\n' by {
            assert(ev.file[j] == qk[j]);
        }
        assert forall|j: int| 0 <= j < ev.section.len() implies #[trigger] ev.section[j] != '\n'
            by {
            assert(ev.section[j] == rest[j]);
        }
        assert forall|j: int| 0 <= j < ev.key.len() implies #[trigger] ev.key[j] != '\n' by {
            assert(ev.key[j] == rest[j + i2 + 1]);
        }
        crate::render::lemma_count_char_absent(ev.file, '\n');
        crate::render::lemma_count_char_absent(ev.section, '\n');
        crate::render::lemma_count_char_absent(ev.key, '\n');
        crate::render::lemma_count_char_absent(ev.value, '\n');
    }
}

/// For a line without line breaks — every line handed in by the reader is
/// one — the CSV document holds exactly one line per raw entry plus the
/// header, however the entries read.
pub proof fn lemma_csv_line_count_for_line(line: Seq<char>)
    requires
        line_wellformed(line),
        lacks_char(line, '\n'),
    ensures
        crate::render::count_char(crate::render::spec_csv(spec_entries(line)), '\n')
            == spec_entries(line).len() + 1,
{
    lemma_line_entries_single_line(line);
    crate::render::lemma_csv_line_count(spec_entries(line));
}

/// Round trip of lookup keys: for a well-formed line, the `Key` values
/// embedded in the rendered view models are exactly the qualified-key
/// texts of the line's raw entries — the same multiset, so none is lost,
/// invented or duplicated.
pub proof fn lemma_lookup_keys_round_trip(line: Seq<char>)
    requires
        line_wellformed(line),
    ensures
        spec_model_lookup_keys(spec_view_models_of(spec_sections(line))).to_multiset()
            == spec_entry_lookup_keys(spec_entries(line)).to_multiset(),
        spec_entry_lookup_keys(spec_entries(line)) == spec_entry_texts(line).map_values(
            |e: Seq<char>| spec_qualified_key(e),
        ),
{
    lemma_model_keys_eq_section_keys(spec_sections(line));
    lemma_group_keys(spec_entries(line));
    let texts = spec_entry_texts(line);
    assert forall|i: int| 0 <= i < texts.len() implies spec_entry_lookup_keys(
        spec_entries(line),
    )[i] == spec_qualified_key(texts[i]) by {
        lemma_entry_lookup_key(texts[i]);
    }
    assert(spec_entry_lookup_keys(spec_entries(line)) =~= texts.map_values(
        |e: Seq<char>| spec_qualified_key(e),
    ));
}

} // verus!
