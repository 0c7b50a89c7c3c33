use flatcfg::model::{
    build_view_models, handle_line, Field, QualifiedSection, SectionModel,
};
use flatcfg::parse::{parse_line, ParseError, ParseErrorKind};
use flatcfg::render::{render_csv, render_csv_for_line, render_json_for_line, select_smallest};

fn pairs_of(model: &SectionModel) -> Vec<(String, String)> {
    model.pairs.clone()
}

#[test]
fn parser_groups_two_sections_in_order() {
    let models = handle_line("A~B~k1=v1$A~B~k2=v2$C~D~k3=v3".to_string()).unwrap();
    assert_eq!(models.len(), 2);
    assert_eq!(models[0].file, "A");
    assert_eq!(models[0].section, "B");
    let first = pairs_of(&models[0]);
    assert_eq!(
        first,
        vec![("k1".to_string(), "v1".to_string()), ("k2".to_string(), "v2".to_string())]
    );
    assert_eq!(models[1].file, "C");
    assert_eq!(models[1].section, "D");
    let second = pairs_of(&models[1]);
    assert_eq!(second, vec![("k3".to_string(), "v3".to_string())]);
}

#[test]
fn parser_keeps_duplicate_keys() {
    let models = handle_line("F~S~k=1$F~S~k=2".to_string()).unwrap();
    assert_eq!(models.len(), 1);
    assert_eq!(
        pairs_of(&models[0]),
        vec![("k".to_string(), "1".to_string()), ("k".to_string(), "2".to_string())]
    );
}

#[test]
fn parser_keeps_tilde_fragments_in_the_key() {
    let entries = parse_line("F~S~a~b=v").unwrap();
    assert_eq!(entries.len(), 1);
    assert_eq!(entries[0].file, "F");
    assert_eq!(entries[0].section, "S");
    assert_eq!(entries[0].key, "a~b");
    assert_eq!(entries[0].value, "v");
}

#[test]
fn parser_splits_on_the_first_equals_only() {
    let entries = parse_line("F~S~k=a=b").unwrap();
    assert_eq!(entries[0].key, "k");
    assert_eq!(entries[0].value, "a=b");
}

#[test]
fn parser_accepts_empty_names_and_values() {
    let entries = parse_line("~~=").unwrap();
    assert_eq!(entries[0].file, "");
    assert_eq!(entries[0].section, "");
    assert_eq!(entries[0].key, "");
    assert_eq!(entries[0].value, "");
}

#[test]
fn missing_equals_reports_the_entry_index() {
    let err = parse_line("A~B~k=v$nosep").unwrap_err();
    assert_eq!(
        err,
        ParseError { entry_index: 1, kind: ParseErrorKind::MissingKeyValueSeparator }
    );
}

#[test]
fn too_few_fields_report_the_entry_index() {
    let err = parse_line("A~B~k=v$AB=x$C~D~k=v").unwrap_err();
    assert_eq!(err, ParseError { entry_index: 1, kind: ParseErrorKind::MalformedQualifiedKey });
}

#[test]
fn two_fields_are_still_malformed() {
    let err = parse_line("A~B=x").unwrap_err();
    assert_eq!(err, ParseError { entry_index: 0, kind: ParseErrorKind::MalformedQualifiedKey });
}

#[test]
fn empty_input_is_a_missing_separator() {
    let err = parse_line("").unwrap_err();
    assert_eq!(
        err,
        ParseError { entry_index: 0, kind: ParseErrorKind::MissingKeyValueSeparator }
    );
}

#[test]
fn csv_has_one_line_per_entry_plus_header() {
    let text = render_csv_for_line("A~B~k1=v1$A~B~k2=v2$C~D~k3=v3").unwrap();
    assert_eq!(
        text,
        "File,Section,Key,Value Example,Is it ReadOnly?,Should it be displayed\n\
         A,B,k1,v1,false,true\nA,B,k2,v2,false,true\nC,D,k3,v3,false,true\n"
    );
    assert_eq!(text.lines().count(), 4);
}

#[test]
fn csv_rows_carry_the_raw_fields_verbatim() {
    let entries = parse_line("My File~Main~Some Key=a value").unwrap();
    let text = render_csv(&entries);
    let rows: Vec<&str> = text.lines().collect();
    assert_eq!(rows.len(), 2);
    assert_eq!(rows[1], "My File,Main,Some Key,a value,false,true");
}

#[test]
fn csv_leaves_commas_in_values_unquoted() {
    let text = render_csv_for_line("F~S~k=a,b").unwrap();
    let rows: Vec<&str> = text.lines().collect();
    assert_eq!(rows[1], "F,S,k,a,b,false,true");
}

#[test]
fn a_bad_entry_yields_no_csv_at_all() {
    let result = render_csv_for_line("A~B~k1=v1$broken$C~D~k3=v3");
    assert_eq!(
        result.unwrap_err(),
        ParseError { entry_index: 1, kind: ParseErrorKind::MissingKeyValueSeparator }
    );
}

#[test]
fn a_bad_entry_yields_no_json_at_all() {
    let result = render_json_for_line("AB=x");
    assert_eq!(
        result.unwrap_err(),
        ParseError { entry_index: 0, kind: ParseErrorKind::MalformedQualifiedKey }
    );
}

#[test]
fn json_document_is_rendered_exactly() {
    let text = render_json_for_line("A~B~k1=v1$C~D~k2=v2").unwrap();
    assert_eq!(
        text,
        "[{\"Name\":\"AB\",\"DisplayName\":\"*A~B*\",\"Description\":\"Temp_Description\",\
         \"Fields\":[{\"Name\":\"K1\",\"DisplayName\":\"k1\",\"Description\":\"Temp_Description\",\
         \"Key\":\"A~B~k1\"}]},\
         {\"Name\":\"CD\",\"DisplayName\":\"*C~D*\",\"Description\":\"Temp_Description\",\
         \"Fields\":[{\"Name\":\"K2\",\"DisplayName\":\"k2\",\"Description\":\"Temp_Description\",\
         \"Key\":\"C~D~k2\"}]}]"
    );
}

fn keys_embedded_in(json: &str) -> Vec<String> {
    let mut found = Vec::new();
    let marker = "\"Key\":\"";
    let mut rest = json;
    while let Some(at) = rest.find(marker) {
        let tail = &rest[at + marker.len()..];
        let end = tail.find('"').unwrap();
        found.push(tail[..end].to_string());
        rest = &tail[end..];
    }
    found
}

#[test]
fn json_keys_round_trip_to_the_input() {
    let line = "A~B~k1=v1$A~B~k2=v2$C~D~k3=v3$A~B~k1=v9";
    let text = render_json_for_line(line).unwrap();
    let mut embedded = keys_embedded_in(&text);
    let mut expected: Vec<String> =
        line.split('$').map(|e| e.split_once('=').unwrap().0.to_string()).collect();
    embedded.sort();
    expected.sort();
    assert_eq!(embedded, expected);
}

#[test]
fn json_escapes_quotes_and_backslashes() {
    let text = render_json_for_line("A~B~sa\"y=pa\\th").unwrap();
    assert!(text.contains("\"DisplayName\":\"sa\\\"y\""));
    assert!(text.contains("\"Key\":\"A~B~sa\\\"y\""));
}

#[test]
fn field_descriptor_is_built_from_the_key() {
    let f = Field::new("My Key", "ignored", "F~S");
    assert_eq!(f.name, "MyKey");
    assert_eq!(f.display_name, "My Key");
    assert_eq!(f.description, "Temp_Description");
    assert_eq!(f.key, "F~S~My Key");
}

#[test]
fn view_model_is_built_from_the_qualified_section() {
    let q = QualifiedSection::new(
        "My File~Main".to_string(),
        vec![("k one".to_string(), "v".to_string())],
    );
    assert_eq!(q.name, "MyFileMain");
    assert_eq!(q.display_name, "*My File~Main*");
    assert_eq!(q.description, "Temp_Description");
    assert_eq!(q.fields.len(), 1);
    assert_eq!(q.fields[0].name, "KOne");
    assert_eq!(q.fields[0].key, "My File~Main~k one");
}

#[test]
fn view_models_follow_the_sections() {
    let models = handle_line("A~B~k=v".to_string()).unwrap();
    let views = build_view_models(&models);
    assert_eq!(views.len(), 1);
    assert_eq!(views[0].name, "AB");
    assert_eq!(views[0].fields[0].key, "A~B~k");
}

#[test]
fn smallest_section_is_selected() {
    let models =
        handle_line("A~A~k1=v$A~A~k2=v$A~A~k3=v$B~B~k1=v$C~C~k1=v$C~C~k2=v".to_string()).unwrap();
    let counts: Vec<usize> = models.iter().map(|m| m.pairs.len()).collect();
    assert_eq!(counts, vec![3, 1, 2]);
    assert_eq!(select_smallest(&models), Some(1));
}

#[test]
fn smallest_selection_is_deterministic_on_ties() {
    let models = handle_line("B~B~k1=v$A~A~k1=v".to_string()).unwrap();
    assert_eq!(select_smallest(&models), Some(0));
}

#[test]
fn nothing_is_selected_from_no_sections() {
    let models: Vec<SectionModel> = Vec::new();
    assert_eq!(select_smallest(&models), None);
}
