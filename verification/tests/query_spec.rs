use sql_optimizer_labs::query_spec::{
    check_spec_text, lines_of, lookup, parse_spec_text, required_meta, required_section,
    sql_file_name, trim_chars, QuerySpec,
};

const SPEC: &str = "# a comment\nname: q01\nfamily : scan, filter \nnote: first query\n\n[select]\n(list a\n  b)\n\n(list c)\n[from]\n(scan t (list a b))\n[limit]\n10\n";

#[test]
fn spec_text_sections_and_metadata() {
    assert!(check_spec_text(SPEC).is_none());
    let t = parse_spec_text(SPEC);
    assert_eq!(required_meta(&t.meta, "name"), "q01");
    assert_eq!(required_meta(&t.meta, "family"), "scan, filter");
    assert_eq!(required_section(&t.sections, "select"), "(list a\n  b)\n(list c)");
    assert_eq!(required_section(&t.sections, "from"), "(scan t (list a b))");
    assert_eq!(lookup(&t.sections, "where"), None);
}

#[test]
fn query_spec_defaults() {
    let t = parse_spec_text(SPEC);
    let q = QuerySpec::from_text(&t, "q01_file");
    assert_eq!(q.name, "q01");
    assert_eq!(q.family, "scan, filter");
    assert_eq!(q.note, "first query");
    assert_eq!(q.sql_file, "q01.sql");
    assert_eq!(q.where_, "true");
    assert_eq!(q.having, "true");
    assert_eq!(q.groupby, "(list)");
    assert_eq!(q.orderby, "(list)");
    assert_eq!(q.limit, "10");
    assert_eq!(q.offset, "0");
}

#[test]
fn name_defaults_to_the_file_stem() {
    let t = parse_spec_text("family: f\nnote: n\nsql_file: x.sql\n[select]\ns\n[from]\nf\n");
    let q = QuerySpec::from_text(&t, "stem");
    assert_eq!(q.name, "stem");
    assert_eq!(q.sql_file, "x.sql");
    assert_eq!(sql_file_name(&t.meta, "stem"), "x.sql");
    let t = parse_spec_text("family: f\n");
    assert_eq!(sql_file_name(&t.meta, "stem"), "stem.sql");
}

#[test]
fn later_entries_override_earlier_ones() {
    let t = parse_spec_text("note: a\nnote: b\n[s]\n1\n[s]\n2\n");
    assert_eq!(required_meta(&t.meta, "note"), "b");
    assert_eq!(required_section(&t.sections, "s"), "2");
}

#[test]
fn metadata_line_without_colon_is_refused() {
    assert_eq!(check_spec_text("name: q\nbroken line\n[select]\nx\n"), Some("broken line".to_string()));
    assert!(check_spec_text("[select]\nno colon needed here\n").is_none());
}

#[test]
fn text_helpers() {
    let v: Vec<char> = "  a b \t".chars().collect();
    assert_eq!(trim_chars(&v), vec!['a', ' ', 'b']);
    let lines = lines_of(&"x\r\ny\n\nz".chars().collect());
    let lines: Vec<String> = lines.iter().map(|l| l.iter().collect()).collect();
    assert_eq!(lines, vec!["x", "y", "", "z"]);
}
