use std::path::Path;

use kintampo::client::{
    new_entry_path, parse_edn_vector, subscription_topics, vector_strings, EdnError, EdnForm,
};
use kintampo::edn_scan::is_edn_admitted;
use kintampo::codec::{
    chars_of, decode_topic, encode_topic, kind_of_opcode, new_path_envelope, parse_envelope, same_text,
    ChangeKind,
};
use kintampo::relay::relay_envelope;
use kintampo::topology::{
    listing, parse_request, quote_path, quoted_dirs, topology_response, TopologyRequest,
};

#[test]
fn test_parse_edn_vector() {
    assert_eq!(vec!["a".to_owned(), "b".to_owned()], parse_edn_vector("[\"a\",\"b\"]").unwrap());
}

#[test]
fn test_parse_edn_vector_empty_as_error() {
    let expected: Vec<String> = vec![];
    assert_eq!(expected, parse_edn_vector(":something-else").unwrap());
}

#[test]
fn test_new_path_envelope() {
    assert_eq!("NEW:///tmp/testing", new_path_envelope("/tmp/testing"));
}

#[test]
fn test_path_from_envelope() {
    let (actual_op, actual_path) = parse_envelope("ADHOC:///tmp/foo").unwrap();
    let (expected_op, expected_path) = ("ADHOC".to_owned(), Path::new("/tmp/foo"));
    assert_eq!(expected_op, actual_op);
    assert_eq!(expected_path, Path::new(&actual_path));
}

#[test]
fn parse_envelope_splits_at_first_separator() {
    let (op, path) = parse_envelope("NEW:///a://b").unwrap();
    assert_eq!("NEW", op);
    assert_eq!("/a://b", path);
}

#[test]
fn parse_envelope_keeps_multibyte_characters() {
    let (op, path) = parse_envelope("ÉTÉ:///tmp/café/ü").unwrap();
    assert_eq!("ÉTÉ", op);
    assert_eq!("/tmp/café/ü", path);
    assert_eq!(Some(("".to_owned(), "".to_owned())), parse_envelope("://"));
}

#[test]
fn parse_envelope_without_separator_is_none() {
    assert_eq!(None, parse_envelope("NEW:/tmp/foo"));
    assert_eq!(None, parse_envelope(""));
}

#[test]
fn opcodes_of_kinds() {
    assert_eq!("CREATE", ChangeKind::Create.opcode());
    assert_eq!("WRITE", ChangeKind::Write.opcode());
    assert_eq!(Some(ChangeKind::Create), kind_of_opcode("CREATE"));
    assert_eq!(Some(ChangeKind::Write), kind_of_opcode("WRITE"));
    assert_eq!(None, kind_of_opcode("DELETE"));
    assert_eq!(None, kind_of_opcode("create"));
}

#[test]
fn same_text_compares_characters() {
    assert!(same_text("abc", "abc"));
    assert!(!same_text("abc", "abd"));
    assert!(!same_text("abc", "ab"));
}

#[test]
fn round_trip_create_and_write() {
    let t = encode_topic(ChangeKind::Create, "/tmp/k/sub");
    assert_eq!("CREATE:///tmp/k/sub", t);
    assert_eq!(Some((ChangeKind::Create, "/tmp/k/sub".to_owned())), decode_topic(&t));
    let w = encode_topic(ChangeKind::Write, "/tmp/k/a://b");
    assert_eq!("WRITE:///tmp/k/a://b", w);
    assert_eq!(Some((ChangeKind::Write, "/tmp/k/a://b".to_owned())), decode_topic(&w));
}

#[test]
fn decode_topic_rejects_unknown_opcode_and_missing_separator() {
    assert_eq!(None, decode_topic("NEW:///tmp/k"));
    assert_eq!(None, decode_topic("CREATE/tmp/k"));
}

#[test]
fn topic_of_directory_prefixes_topics_below_it() {
    let dir = encode_topic(ChangeKind::Create, "/tmp/foo");
    let below = encode_topic(ChangeKind::Create, "/tmp/foo/bar.txt");
    assert!(below.starts_with(&dir));
    assert!(below.len() > dir.len());
    let parent = new_path_envelope("/tmp/foo");
    let child = new_path_envelope("/tmp/foo/sub/deeper");
    assert!(child.starts_with(&parent));
}

#[test]
fn relay_forwards_create_and_write_as_new() {
    assert_eq!(
        Some(("NEW:///tmp/k/sub".to_owned(), "/tmp/k/sub".to_owned())),
        relay_envelope("CREATE", "/tmp/k/sub")
    );
    assert_eq!(
        Some(("NEW:///tmp/k/f.txt".to_owned(), "/tmp/k/f.txt".to_owned())),
        relay_envelope("WRITE", "/tmp/k/f.txt")
    );
}

#[test]
fn relay_drops_unsupported_opcode() {
    assert_eq!(None, relay_envelope("DELETE", "/tmp/k/sub"));
    assert_eq!(None, relay_envelope("RENAME", "/tmp/k"));
    assert_eq!(None, relay_envelope("", "/tmp/k"));
}

fn walk_of_tmp_k() -> Vec<(String, bool)> {
    vec![
        ("/tmp/k".to_owned(), true),
        ("/tmp/k/sub".to_owned(), true),
        ("/tmp/k/sub/f.txt".to_owned(), false),
    ]
}

#[test]
fn topology_lists_directories_only() {
    let r = topology_response("topology", &walk_of_tmp_k());
    assert_eq!("[\"/tmp/k\",\"/tmp/k/sub\"]", r);
    assert!(!r.contains("f.txt"));
    assert_eq!(vec!["/tmp/k".to_owned(), "/tmp/k/sub".to_owned()], parse_edn_vector(&r).unwrap());
}

#[test]
fn topology_rejects_other_requests_and_stays_usable() {
    let entries = walk_of_tmp_k();
    assert_eq!("Unsupported operation", topology_response("ping", &entries));
    assert_eq!("Unsupported operation", topology_response("", &entries));
    assert_eq!("[\"/tmp/k\",\"/tmp/k/sub\"]", topology_response("topology", &entries));
}

#[test]
fn parse_request_recognizes_topology_only() {
    assert_eq!(TopologyRequest::Topology, parse_request("topology"));
    assert_eq!(TopologyRequest::Unsupported, parse_request("ping"));
    assert_eq!(TopologyRequest::Unsupported, parse_request("topology "));
}

#[test]
fn quoting_and_listing() {
    assert_eq!("\"/tmp/k\"", quote_path("/tmp/k"));
    assert_eq!("[]", listing(&vec![]));
    assert_eq!("[a]", listing(&vec!["a".to_owned()]));
    assert_eq!("[a,b,c]", listing(&vec!["a".to_owned(), "b".to_owned(), "c".to_owned()]));
    assert_eq!(vec!["\"/r\"".to_owned()], quoted_dirs(&vec![("/r".to_owned(), true), ("/r/x".to_owned(), false)]));
    assert_eq!(Vec::<String>::new(), quoted_dirs(&vec![]));
    assert_eq!("[]", topology_response("topology", &vec![]));
}

#[test]
fn edn_items_that_are_not_strings_read_as_empty() {
    let v = |xs: &[&str]| -> Result<Vec<String>, EdnError> {
        Ok(xs.iter().map(|x| x.to_string()).collect())
    };
    assert_eq!(v(&["a", ""]), parse_edn_vector("[\"a\" 1]"));
    assert_eq!(v(&[""]), parse_edn_vector("[1]"));
    assert_eq!(v(&["a", ""]), parse_edn_vector("[\"a\" :k]"));
    assert_eq!(v(&["", "x"]), parse_edn_vector("[nil, \"x\"]"));
    assert_eq!(v(&["", "", "", "y"]), parse_edn_vector("[-3 1.5 [\"z\"] \"y\"]"));
    assert_eq!(v(&["a\"b"]), parse_edn_vector("[\"a\\\"b\"]"));
    assert_eq!(v(&[]), parse_edn_vector("[]"));
    assert_eq!(v(&[]), parse_edn_vector("(\"a\")"));
}

#[test]
fn edn_texts_without_a_form_are_unreadable() {
    assert_eq!(Err(EdnError::Unreadable), parse_edn_vector(""));
    assert_eq!(Err(EdnError::Unreadable), parse_edn_vector("  , "));
    assert_eq!(Err(EdnError::Unreadable), parse_edn_vector("[\"a\""));
    assert_eq!(Err(EdnError::Unreadable), parse_edn_vector("{1}"));
}

#[test]
fn vector_strings_of_reader_output() {
    assert_eq!(Err(EdnError::Unreadable), vector_strings(EdnForm::Unreadable));
    assert_eq!(Ok(Vec::<String>::new()), vector_strings(EdnForm::NotVector));
    assert_eq!(
        Ok(vec!["x".to_owned(), "".to_owned()]),
        vector_strings(EdnForm::Vector(vec![Some("x".to_owned()), None]))
    );
}

#[test]
fn subscriptions_for_discovered_directories() {
    let dirs = vec!["/tmp/k".to_owned(), "/tmp/j".to_owned()];
    assert_eq!(
        vec!["NEW:///tmp/k".to_owned(), "NEW:///tmp/j".to_owned()],
        subscription_topics(&dirs)
    );
}

#[test]
fn new_entry_path_reads_new_events_only() {
    assert_eq!(Some("/tmp/k/sub".to_owned()), new_entry_path("NEW:///tmp/k/sub"));
    assert_eq!(None, new_entry_path("ADHOC:///tmp/k/sub"));
    assert_eq!(None, new_entry_path("NEW/tmp/k/sub"));
}

#[test]
fn late_subdirectory_reaches_subscriber_without_resubscribing() {
    let answer = topology_response("topology", &vec![("/tmp/k".to_owned(), true)]);
    let dirs = parse_edn_vector(&answer).unwrap();
    let topics = subscription_topics(&dirs);
    assert_eq!(vec!["NEW:///tmp/k".to_owned()], topics);
    let mut received = vec![];
    for (op, path) in [("CREATE", "/tmp/k/sub"), ("CREATE", "/tmp/k/sub/file.txt")] {
        let (topic, body) = relay_envelope(op, path).unwrap();
        if topics.iter().any(|t| topic.starts_with(t.as_str())) {
            assert_eq!(path, body);
            received.push(new_entry_path(&topic).unwrap());
        }
    }
    assert_eq!(vec!["/tmp/k/sub".to_owned(), "/tmp/k/sub/file.txt".to_owned()], received);
}

#[test]
fn edn_admission_of_texts() {
    assert!(is_edn_admitted("[\"/tmp/k\",\"/tmp/k/sub\"]"));
    assert!(is_edn_admitted(":something-else"));
    assert!(is_edn_admitted("[[\"a\"] :b, c]"));
    assert!(is_edn_admitted(""));
    assert!(is_edn_admitted("[1]"));
    assert!(is_edn_admitted("[-3 +4 .5 1.5 1. x/y *a <b> $c ? - + .]"));
    assert!(is_edn_admitted("[99999999999999999999.5]"));
    assert!(is_edn_admitted("[9223372036854775807 -9223372036854775808]"));
    assert!(is_edn_admitted("(\"a\") {:a 1} #{1 2}"));
    assert!(is_edn_admitted("#inst \"x\""));
    assert!(is_edn_admitted("[\\a \\newline]"));
    assert!(is_edn_admitted("\u{a0}[\u{3000}]"));
    assert!(is_edn_admitted("[] ]"));
    assert!(is_edn_admitted(&"[".repeat(64)));
    assert!(!is_edn_admitted(&"[".repeat(65)));
    assert!(!is_edn_admitted("]"));
    assert!(!is_edn_admitted("[)"));
    assert!(!is_edn_admitted("[-]"));
    assert!(!is_edn_admitted("[+,]"));
    assert!(!is_edn_admitted("[9223372036854775808]"));
    assert!(!is_edn_admitted("[-9223372036854775809]"));
    assert!(!is_edn_admitted("#"));
    assert!(!is_edn_admitted("#1"));
    assert!(!is_edn_admitted("@"));
    assert!(!is_edn_admitted("\"abc\\"));
}

#[test]
fn texts_not_admitted_are_refused() {
    assert_eq!(Err(EdnError::Refused), parse_edn_vector("[-]"));
    assert_eq!(Err(EdnError::Refused), parse_edn_vector("[\"a\" 99999999999999999999999]"));
    assert_eq!(Err(EdnError::Refused), parse_edn_vector("\"abc\\"));
}

#[test]
fn paths_with_quotes_and_backslashes_are_escaped() {
    assert_eq!("\"/a\\\"b\\\\c\"", quote_path("/a\"b\\c"));
    let entries = vec![
        ("/r".to_owned(), true),
        ("/r/a\"b".to_owned(), true),
        ("/r/c\\n".to_owned(), true),
    ];
    let answer = topology_response("topology", &entries);
    assert_eq!("[\"/r\",\"/r/a\\\"b\",\"/r/c\\\\n\"]", answer);
    assert_eq!(
        vec!["/r".to_owned(), "/r/a\"b".to_owned(), "/r/c\\n".to_owned()],
        parse_edn_vector(&answer).unwrap()
    );
}

#[test]
fn chars_of_keeps_order() {
    assert_eq!(vec!['a', '/', 'é'], chars_of("a/é"));
    assert_eq!(Vec::<char>::new(), chars_of(""));
}
