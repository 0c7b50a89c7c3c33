//! The flat encoding parser.
//!
//! The input line is a sequence of entries joined by `$`. Each entry is
//! `<qualifiedKey>=<value>`, split on the first `=` only. A qualified key
//! is `file~section~key`: the first two `~`-delimited fields are the file
//! and the section; everything after the second `~` belongs to the key
//! verbatim, so a key may itself contain `~`. An entry without `=`, or
//! with fewer than three `~`-delimited fields, is a fatal input-format
//! error reported with the index of the first offending entry.

use vstd::prelude::*;

use crate::chars::DelimSet;
use crate::split::{find_delim, find_on, lemma_find_delim, split_chars, split_on};
use vstd::string::StrSliceExecFns;
use vstd::string::StringExecFns;

verus! {

/// One raw fact from the input line, as character sequences.
pub ghost struct EntryView {
    pub file: Seq<char>,
    pub section: Seq<char>,
    pub key: Seq<char>,
    pub value: Seq<char>,
}

/// One raw `(file, section, key, value)` fact from the input line.
#[derive(Debug)]
pub struct Entry {
    pub file: String,
    pub section: String,
    pub key: String,
    pub value: String,
}

impl View for Entry {
    type V = EntryView;

    open spec fn view(&self) -> EntryView {
        EntryView {
            file: self.file@,
            section: self.section@,
            key: self.key@,
            value: self.value@,
        }
    }
}

impl DeepView for Entry {
    type V = EntryView;

    open spec fn deep_view(&self) -> EntryView {
        self.view()
    }
}

/// What is wrong with an offending entry.
#[derive(Clone, Copy, PartialEq, Eq, Structural, Debug)]
pub enum ParseErrorKind {
    /// The entry has no `=` separating its qualified key from its value.
    MissingKeyValueSeparator,
    /// The qualified key has fewer than three `~`-delimited fields.
    MalformedQualifiedKey,
}

/// A fatal input-format error: the first offending entry and what is wrong
/// with it. Parsing aborts the whole run; no partial result is produced.
#[derive(Clone, Copy, PartialEq, Eq, Structural, Debug)]
pub struct ParseError {
    pub entry_index: usize,
    pub kind: ParseErrorKind,
}

/// The `$`-separated entry texts of the line.
pub open spec fn spec_entry_texts(line: Seq<char>) -> Seq<Seq<char>> {
    split_chars(line, DelimSet::Entry)
}

/// The entry has a `=` separating its qualified key from its value.
pub open spec fn entry_has_separator(e: Seq<char>) -> bool {
    find_delim(e, DelimSet::KeyValue) < e.len()
}

/// The qualified-key part of an entry: everything before the first `=`.
pub open spec fn spec_qualified_key(e: Seq<char>) -> Seq<char> {
    e.take(find_delim(e, DelimSet::KeyValue))
}

/// The qualified key holds at least three `~`-delimited fields.
pub open spec fn entry_key_wellformed(e: Seq<char>) -> bool {
    let qk = spec_qualified_key(e);
    let i1 = find_delim(qk, DelimSet::Qualifier);
    let rest = qk.skip(i1 + 1);
    i1 < qk.len() && find_delim(rest, DelimSet::Qualifier) < rest.len()
}

pub open spec fn entry_wellformed(e: Seq<char>) -> bool {
    entry_has_separator(e) && entry_key_wellformed(e)
}

/// The parsed fact of a well-formed entry.
pub open spec fn spec_entry(e: Seq<char>) -> EntryView {
    let ie = find_delim(e, DelimSet::KeyValue);
    let qk = e.take(ie);
    let value = e.skip(ie + 1);
    let i1 = find_delim(qk, DelimSet::Qualifier);
    let rest = qk.skip(i1 + 1);
    let i2 = find_delim(rest, DelimSet::Qualifier);
    EntryView { file: qk.take(i1), section: rest.take(i2), key: rest.skip(i2 + 1), value }
}

/// Every entry of the line is well-formed.
pub open spec fn line_wellformed(line: Seq<char>) -> bool {
    forall|i: int|
        0 <= i < spec_entry_texts(line).len() ==> entry_wellformed(
            #[trigger] spec_entry_texts(line)[i],
        )
}

/// The parsed facts of a well-formed line, in input order.
pub open spec fn spec_entries(line: Seq<char>) -> Seq<EntryView> {
    spec_entry_texts(line).map_values(|e: Seq<char>| spec_entry(e))
}

/// The error an ill-formed entry is reported with: a missing `=` takes
/// precedence over a malformed qualified key.
pub open spec fn spec_entry_error_kind(e: Seq<char>) -> ParseErrorKind {
    if !entry_has_separator(e) {
        ParseErrorKind::MissingKeyValueSeparator
    } else {
        ParseErrorKind::MalformedQualifiedKey
    }
}

/// The returned error names the first offending entry of the line.
pub open spec fn is_first_parse_error(line: Seq<char>, err: ParseError) -> bool {
    let texts = spec_entry_texts(line);
    &&& err.entry_index < texts.len()
    &&& !entry_wellformed(texts[err.entry_index as int])
    &&& (forall|j: int| 0 <= j < err.entry_index ==> entry_wellformed(#[trigger] texts[j]))
    &&& err.kind == spec_entry_error_kind(texts[err.entry_index as int])
}

/// Parses one entry text.
fn parse_entry_text(e: &str) -> (r: Result<Entry, ParseErrorKind>)
    ensures
        r is Ok <==> entry_wellformed(e@),
        r is Ok ==> r.unwrap()@ == spec_entry(e@),
        r is Err ==> r.unwrap_err() == spec_entry_error_kind(e@),
{
    let n: usize = e.unicode_len();
    let ie = find_on(e, DelimSet::KeyValue);
    proof {
        lemma_find_delim(e@, DelimSet::KeyValue);
    }
    if ie == n {
        return Result::Err(ParseErrorKind::MissingKeyValueSeparator);
    }
    let qk = e.substring_char(0, ie);
    let value = e.substring_char(ie + 1, n);
    proof {
        assert(qk@ =~= spec_qualified_key(e@));
        assert(value@ =~= e@.skip(ie + 1));
    }
    let nq: usize = qk.unicode_len();
    let i1 = find_on(qk, DelimSet::Qualifier);
    proof {
        lemma_find_delim(qk@, DelimSet::Qualifier);
    }
    if i1 == nq {
        return Result::Err(ParseErrorKind::MalformedQualifiedKey);
    }
    let file = qk.substring_char(0, i1);
    let rest = qk.substring_char(i1 + 1, nq);
    proof {
        assert(rest@ =~= qk@.skip(i1 + 1));
    }
    let nr: usize = rest.unicode_len();
    let i2 = find_on(rest, DelimSet::Qualifier);
    proof {
        lemma_find_delim(rest@, DelimSet::Qualifier);
    }
    if i2 == nr {
        return Result::Err(ParseErrorKind::MalformedQualifiedKey);
    }
    let section = rest.substring_char(0, i2);
    let key = rest.substring_char(i2 + 1, nr);
    let parsed = Entry {
        file: String::from_str(file),
        section: String::from_str(section),
        key: String::from_str(key),
        value: String::from_str(value),
    };
    proof {
        assert(parsed@.file =~= spec_entry(e@).file);
        assert(parsed@.section =~= spec_entry(e@).section);
        assert(parsed@.key =~= spec_entry(e@).key);
        assert(parsed@.value =~= spec_entry(e@).value);
    }
    Result::Ok(parsed)
}

/// Parses the flattened line into its raw entries, in input order.
/// Aborts on the first offending entry with no partial result.
pub fn parse_line(line: &str) -> (r: Result<Vec<Entry>, ParseError>)
    ensures
        r is Ok <==> line_wellformed(line@),
        r is Ok ==> r.unwrap().deep_view() == spec_entries(line@),
        r is Err ==> is_first_parse_error(line@, r.unwrap_err()),
{
    let texts = split_on(line, DelimSet::Entry);
    let mut entries: Vec<Entry> = Vec::new();
    let mut i: usize = 0;
    while i < texts.len()
        invariant
            0 <= i <= texts@.len(),
            texts.deep_view() == spec_entry_texts(line@),
            entries@.len() == i,
            forall|j: int| 0 <= j < i ==> entry_wellformed(#[trigger] texts.deep_view()[j]),
            forall|j: int|
                0 <= j < i ==> entries.deep_view()[j] == spec_entry(
                    #[trigger] texts.deep_view()[j],
                ),
        decreases texts@.len() - i,
    {
        proof {
            assert(texts@[i as int]@ == texts.deep_view()[i as int]);
        }
        match parse_entry_text(texts[i].as_str()) {
            Result::Ok(en) => {
                entries.push(en);
            },
            Result::Err(kind) => {
                return Result::Err(ParseError { entry_index: i, kind });
            },
        }
        i = i + 1;
    }
    proof {
        assert(entries.deep_view() =~= spec_entries(line@));
    }
    Result::Ok(entries)
}

} // verus!
