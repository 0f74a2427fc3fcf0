use tracelink::config::TraceConfig;
use tracelink::correlate::correlate;
use tracelink::path_filter::should_ignore;
use tracelink::record::TraceRecord;
use tracelink::registry::has_yml_extension;
use tracelink::registry::parse_requirement;
use tracelink::registry::ParseError;
use tracelink::registry::Registry;
use tracelink::registry::RequirementCollection;
use tracelink::scanner::scan_file;
use tracelink::scanner::scan_files;
use tracelink::scanner::ScanFile;
use tracelink::searcher::match_line;
use tracelink::searcher::Searcher;

#[test]
fn config_defaults() {
    let c = TraceConfig::new();
    assert_eq!(c.identifier, "~tr:");
    assert_eq!(c.requirements_dir, "req");
}

#[test]
fn path_filter_ignores_build_output_and_hidden() {
    assert!(should_ignore("./target/debug/foo"));
    assert!(should_ignore("/target/foo"));
    assert!(should_ignore(".git/config"));
    assert!(should_ignore("src/.hidden"));
    assert!(!should_ignore("src/main.x"));
    assert!(!should_ignore("req/REQ-1.yml"));
}

#[test]
fn path_filter_keeps_dot_and_dot_dot_components() {
    assert!(!should_ignore("./src/main.rs"));
    assert!(!should_ignore("a/../b"));
    assert!(!should_ignore("foo/."));
    assert!(should_ignore("./.git"));
    assert!(should_ignore("a/.x/b"));
}

#[test]
fn match_line_extracts_remainder_after_prefix() {
    let r = match_line("// ~tr:REQ-42 implements parsing", "~tr:");
    assert_eq!(r, Some(String::from("REQ-42 implements parsing")));
}

#[test]
fn match_line_trims_blanks_around_identifier() {
    let r = match_line("\t// ~tr: REQ-7  x \r", "~tr:");
    assert_eq!(r, Some(String::from("REQ-7  x")));
    assert_eq!(match_line("nothing here", "~tr:"), None);
}

#[test]
fn searcher_refuses_empty_prefix() {
    assert!(Searcher::new(String::new()).is_none());
    assert!(Searcher::new(String::from("~tr:")).is_some());
}

#[test]
fn find_matches_numbers_lines_from_zero() {
    let s = Searcher::new(String::from("~tr:")).unwrap();
    let content = b"first\n// ~tr:REQ-1\nplain\n// ~tr:REQ-2 note\n";
    let hits = s.find_matches(content);
    assert_eq!(hits.len(), 2);
    assert_eq!(hits[0].0, 1);
    assert_eq!(hits[0].1, "REQ-1");
    assert_eq!(hits[1].0, 3);
    assert_eq!(hits[1].1, "REQ-2 note");
}

#[test]
fn find_matches_last_line_without_terminator() {
    let s = Searcher::new(String::from("~tr:")).unwrap();
    let hits = s.find_matches(b"~tr:END");
    assert_eq!(hits.len(), 1);
    assert_eq!(hits[0].0, 0);
    assert_eq!(hits[0].1, "END");
}

#[test]
fn find_matches_skips_undecodable_line_but_keeps_numbering() {
    let s = Searcher::new(String::from("~tr:")).unwrap();
    let mut content: Vec<u8> = Vec::new();
    content.extend_from_slice(b"ok ~tr:A\n");
    content.extend_from_slice(&[0xff, 0xfe, b'~', b't', b'r', b':', b'B', b'\n']);
    content.extend_from_slice(b"ok ~tr:C\n");
    let hits = s.find_matches(&content);
    assert_eq!(hits.len(), 2);
    assert_eq!(hits[0], (0, String::from("A")));
    assert_eq!(hits[1], (2, String::from("C")));
}

#[test]
fn scan_file_stamps_every_match_with_the_path() {
    let s = Searcher::new(String::from("~tr:")).unwrap();
    let records = scan_file("src/a.x", b"x\n~tr:R1\n~tr:R2\n", &s);
    assert_eq!(records.len(), 2);
    assert_eq!(records[0].file_path, "src/a.x");
    assert_eq!(records[0].line_number, 1);
    assert_eq!(records[0].requirement_id, "R1");
    assert_eq!(records[1].file_path, "src/a.x");
    assert_eq!(records[1].line_number, 2);
    assert_eq!(records[1].requirement_id, "R2");
}

#[test]
fn yml_extension_rules() {
    assert!(has_yml_extension("req/REQ-1.yml"));
    assert!(has_yml_extension("a..yml"));
    assert!(!has_yml_extension("req/readme.txt"));
    assert!(!has_yml_extension("req/REQ-1.yaml"));
    assert!(!has_yml_extension(".yml"));
    assert!(!has_yml_extension("req/.yml"));
}

#[test]
fn parse_requirement_reads_all_fields() {
    let q = parse_requirement("id: REQ-1\nname: First\ndetails: Words\nparent: REQ-0\n").unwrap();
    assert_eq!(q.id, "REQ-1");
    assert_eq!(q.name, "First");
    assert_eq!(q.details.as_deref(), Some("Words"));
    assert_eq!(q.parent.as_deref(), Some("REQ-0"));
}

#[test]
fn parse_requirement_optional_fields_absent() {
    let q = parse_requirement("id: REQ-2\nname: Second\n").unwrap();
    assert_eq!(q.id, "REQ-2");
    assert_eq!(q.name, "Second");
    assert!(q.details.is_none());
    assert!(q.parent.is_none());
}

#[test]
fn parse_requirement_error_variants() {
    assert!(matches!(parse_requirement("name: NoId\n"), Err(ParseError::MissingId)));
    assert!(matches!(parse_requirement("id: \"\"\nname: Empty\n"), Err(ParseError::EmptyId)));
    assert!(matches!(parse_requirement("id: REQ-3\n"), Err(ParseError::MissingName)));
    assert!(matches!(parse_requirement(": : :"), Err(ParseError::Document(_))));
}

fn load_documents(docs: &[(&str, &str)]) -> (Registry, Vec<String>) {
    let mut collection = RequirementCollection::new();
    let mut warnings: Vec<String> = Vec::new();
    for (name, text) in docs {
        if !has_yml_extension(name) {
            continue;
        }
        match parse_requirement(text) {
            Ok(q) => {
                if q.id.is_empty() {
                    continue;
                }
                collection.add(q);
            }
            Err(e) => warnings.push(format!("{}: {:?}", name, e)),
        }
    }
    (Registry::from_collection(collection), warnings)
}

#[test]
fn registry_loads_two_documents_skipping_other_files() {
    let (reg, warnings) = load_documents(&[
        ("req/REQ-1.yml", "id: REQ-1\nname: First\n"),
        ("req/notes.txt", "not a requirement"),
        ("req/broken.yml", ": : :"),
        ("req/REQ-2.yml", "id: REQ-2\nname: Second\n"),
    ]);
    assert_eq!(reg.len(), 2);
    assert!(reg.contains_id(&String::from("REQ-1")));
    assert!(reg.contains_id(&String::from("REQ-2")));
    assert!(!reg.contains_id(&String::from("REQ-9")));
    assert_eq!(warnings.len(), 1);
}

#[test]
fn registry_later_document_replaces_earlier_id() {
    let (reg, warnings) = load_documents(&[
        ("req/a.yml", "id: REQ-1\nname: Old\n"),
        ("req/b.yml", "id: REQ-1\nname: New\n"),
    ]);
    assert_eq!(reg.len(), 1);
    assert_eq!(reg.get(0).name, "New");
    assert!(warnings.is_empty());
}

fn record(file: &str, line: usize, id: &str) -> TraceRecord {
    TraceRecord {
        file_path: String::from(file),
        line_number: line,
        requirement_id: String::from(id),
    }
}

#[test]
fn correlate_partitions_traces_and_keeps_every_requirement() {
    let (reg, _) = load_documents(&[
        ("req/REQ-1.yml", "id: REQ-1\nname: First\n"),
        ("req/REQ-2.yml", "id: REQ-2\nname: Second\n"),
    ]);
    let traces = vec![
        record("fileA", 3, "REQ-1"),
        record("fileB", 9, "REQ-1"),
        record("fileC", 1, "REQ-9"),
    ];
    let c = correlate(traces, &reg);
    assert_eq!(c.entries.len(), 2);
    assert_eq!(c.entries[0].requirement.id, "REQ-1");
    assert_eq!(c.entries[0].traces.len(), 2);
    assert_eq!(c.entries[0].traces[0].file_path, "fileA");
    assert_eq!(c.entries[0].traces[1].file_path, "fileB");
    assert_eq!(c.entries[1].requirement.id, "REQ-2");
    assert_eq!(c.entries[1].traces.len(), 0);
    assert_eq!(c.orphans.len(), 1);
    assert_eq!(c.orphans[0].requirement_id, "REQ-9");
    assert_eq!(c.orphans[0].file_path, "fileC");
}

fn tree() -> Vec<ScanFile> {
    vec![
        ScanFile { path: String::from("src/a.x"), content: b"// ~tr:REQ-1\nplain\n".to_vec() },
        ScanFile {
            path: String::from("src/b.x"),
            content: b"one\n// ~tr:REQ-1\n// ~tr:REQ-9\n".to_vec(),
        },
    ]
}

fn run_pipeline() -> (usize, Vec<(String, usize, String)>, Vec<(String, usize, String)>) {
    let s = Searcher::new(String::from("~tr:")).unwrap();
    let records = scan_files(&tree(), &s);
    let (reg, _) = load_documents(&[
        ("req/REQ-1.yml", "id: REQ-1\nname: First\n"),
        ("req/REQ-2.yml", "id: REQ-2\nname: Second\n"),
    ]);
    let c = correlate(records, &reg);
    let flat = |v: &Vec<TraceRecord>| {
        v.iter()
            .map(|t| (t.file_path.clone(), t.line_number, t.requirement_id.clone()))
            .collect::<Vec<_>>()
    };
    let mut per_entry = Vec::new();
    for e in &c.entries {
        per_entry.extend(flat(&e.traces));
    }
    (c.entries.len(), per_entry, flat(&c.orphans))
}

#[test]
fn pipeline_over_scan_files_collects_in_file_order() {
    let (n, per_entry, orphans) = run_pipeline();
    assert_eq!(n, 2);
    assert_eq!(
        per_entry,
        vec![
            (String::from("src/a.x"), 0, String::from("REQ-1")),
            (String::from("src/b.x"), 1, String::from("REQ-1")),
        ]
    );
    assert_eq!(orphans, vec![(String::from("src/b.x"), 2, String::from("REQ-9"))]);
}

#[test]
fn pipeline_twice_over_unchanged_tree_is_identical() {
    let first = run_pipeline();
    let second = run_pipeline();
    assert_eq!(first, second);
}
