use pdf_ok::{
    read_file_data, Action, Event, FieldBinding, FileStatus, Outcome, Pipeline, YamlNode,
};
use std::cell::RefCell;

fn lines_of(text: &str) -> Vec<String> {
    text.lines().map(String::from).collect()
}

fn default_bindings() -> Vec<FieldBinding> {
    [("AuthoR", "author"), ("Keywords", "keywords"), ("Subject", "description"), ("Language", "language")]
        .iter()
        .map(|(label, key)| FieldBinding { output_label: label.to_string(), source_key: key.to_string() })
        .collect()
}

/// Runs a batch: `read` gives the content of a document, `render_fails`
/// names the documents whose HTML the renderer rejects, `write_fails` those
/// whose artifact cannot be written. Returns the records and what was
/// written.
fn run(
    inputs: &[&str],
    read: &dyn Fn(&str) -> Option<String>,
    render_fails: &[&str],
    write_fails: &[&str],
) -> (Vec<Outcome>, Vec<(String, Vec<u8>)>) {
    let mut pipeline =
        Pipeline::new(inputs.iter().map(|s| s.to_string()).collect(), default_bindings());
    let mut written = Vec::new();
    let mut current = String::new();
    let mut steps = 0;
    loop {
        steps += 1;
        assert!(steps <= 3 * inputs.len() + 1);
        let event = match pipeline.next_action() {
            Action::Read(identifier) => {
                current = identifier.to_string();
                Event::ReadDone(read(identifier).map(|text| lines_of(&text)))
            }
            Action::Render { html, payload } => {
                assert!(payload.starts_with("data:text/html;charset=utf-8,"));
                if render_fails.contains(&current.as_str()) {
                    Event::RenderDone(None)
                } else {
                    Event::RenderDone(Some(html.as_bytes().to_vec()))
                }
            }
            Action::Write { output_name, pdf } => {
                if write_fails.contains(&current.as_str()) {
                    Event::WriteDone(false)
                } else {
                    written.push((output_name.to_string(), pdf.clone()));
                    Event::WriteDone(true)
                }
            }
            Action::Finished => break,
        };
        pipeline.advance(event);
    }
    assert!(pipeline.is_finished());
    (pipeline.into_outcomes(), written)
}

fn library(identifier: &str) -> Option<String> {
    match identifier {
        "source_mds/untitled.md" => Some("---\nauthor: Ann\nkeywords: [a, b]\n---\n# One\n".to_string()),
        "source_mds/file_02.md" => Some("---\nauthor: Bob\nlanguage: en\n---\nTwo\n".to_string()),
        "source_mds/third.md" => Some("---\ndescription: Third\n---\n*3*\n".to_string()),
        "source_mds/untitled.txt" => Some("no front matter here\n".to_string()),
        _ => None,
    }
}

fn statuses(outcomes: &[Outcome]) -> Vec<FileStatus> {
    outcomes.iter().map(|o| o.status).collect()
}

#[test]
fn a_missing_file_among_two_valid_ones() {
    let inputs = ["source_mds/untitled.md", "source_mds/file_not_found.md", "source_mds/file_02.md"];
    let (outcomes, written) = run(&inputs, &library, &[], &[]);
    assert_eq!(outcomes.len(), 3);
    assert_eq!(
        statuses(&outcomes),
        vec![FileStatus::Success, FileStatus::ReadError, FileStatus::Success]
    );
    for (outcome, input) in outcomes.iter().zip(inputs) {
        assert_eq!(outcome.identifier, input);
    }
    assert_eq!(written.len(), 2);
    assert_eq!(written[0].0, "untitled.pdf");
    assert_eq!(written[1].0, "file_02.pdf");
    assert_eq!(written[0].1, b"<h1>One</h1>\n".to_vec());
    assert_eq!(written[1].1, b"<p>Two</p>\n".to_vec());
}

#[test]
fn a_render_failure_marks_only_its_own_document() {
    let inputs = ["source_mds/untitled.md", "source_mds/file_02.md", "source_mds/third.md"];
    for k in 0..inputs.len() {
        let (outcomes, written) = run(&inputs, &library, &[inputs[k]], &[]);
        let (clean, _) = run(&inputs, &library, &[], &[]);
        assert_eq!(outcomes.len(), 3);
        assert_eq!(written.len(), 2);
        for i in 0..inputs.len() {
            let expected = if i == k { FileStatus::RenderError } else { FileStatus::Success };
            assert_eq!(outcomes[i].status, expected);
            assert_eq!(outcomes[i].identifier, inputs[i]);
            assert_eq!(outcomes[i].metadata_found, clean[i].metadata_found);
            assert_eq!(outcomes[i].resolved_metadata, clean[i].resolved_metadata);
        }
    }
}

#[test]
fn a_write_failure_is_recorded_and_the_batch_goes_on() {
    let inputs = ["source_mds/untitled.md", "source_mds/file_02.md"];
    let (outcomes, written) = run(&inputs, &library, &[], &["source_mds/untitled.md"]);
    assert_eq!(statuses(&outcomes), vec![FileStatus::WriteError, FileStatus::Success]);
    assert_eq!(written.len(), 1);
    assert_eq!(written[0].0, "file_02.pdf");
}

#[test]
fn every_stage_can_fail_in_one_batch() {
    let inputs = [
        "source_mds/missing.md",
        "source_mds/untitled.md",
        "source_mds/file_02.md",
        "source_mds/third.md",
    ];
    let (outcomes, written) =
        run(&inputs, &library, &["source_mds/untitled.md"], &["source_mds/file_02.md"]);
    assert_eq!(
        statuses(&outcomes),
        vec![
            FileStatus::ReadError,
            FileStatus::RenderError,
            FileStatus::WriteError,
            FileStatus::Success
        ]
    );
    assert_eq!(written.len(), 1);
    assert_eq!(written[0].0, "third.pdf");
}

#[test]
fn a_document_without_delimiters_does_not_stop_the_batch() {
    let inputs = ["source_mds/untitled.txt", "source_mds/file_02.md"];
    let (outcomes, written) = run(&inputs, &library, &[], &[]);
    assert_eq!(statuses(&outcomes), vec![FileStatus::Success, FileStatus::Success]);
    assert!(!outcomes[0].metadata_found);
    assert_eq!(outcomes[0].resolved_metadata.len(), 0);
    assert!(outcomes[1].metadata_found);
    assert_eq!(written[0], ("untitled.txt.pdf".to_string(), Vec::new()));
    assert_eq!(written[1].1, b"<p>Two</p>\n".to_vec());
}

#[test]
fn outcomes_carry_the_resolved_metadata() {
    let inputs = ["source_mds/untitled.md", "source_mds/file_02.md", "source_mds/nowhere.md"];
    let (outcomes, _) = run(&inputs, &library, &["source_mds/file_02.md"], &[]);
    let first = &outcomes[0].resolved_metadata;
    assert_eq!(first.len(), 2);
    assert_eq!(first.get("AuthoR"), Some(&YamlNode::Text("Ann".to_string())));
    assert_eq!(
        first.get("Keywords"),
        Some(&YamlNode::Sequence(vec![
            YamlNode::Text("a".to_string()),
            YamlNode::Text("b".to_string())
        ]))
    );
    assert_eq!(first.get("Language"), None);
    let second = &outcomes[1].resolved_metadata;
    assert_eq!(outcomes[1].status, FileStatus::RenderError);
    assert_eq!(second.len(), 2);
    assert_eq!(second.get("AuthoR"), Some(&YamlNode::Text("Bob".to_string())));
    assert_eq!(second.get("Language"), Some(&YamlNode::Text("en".to_string())));
    assert_eq!(second.get("Keywords"), None);
    assert_eq!(outcomes[2].status, FileStatus::ReadError);
    assert!(!outcomes[2].metadata_found);
    assert_eq!(outcomes[2].resolved_metadata.len(), 0);
}

#[test]
fn nothing_leaks_from_one_document_into_the_next() {
    // The first document opens a YAML block and never closes it.
    let read = |identifier: &str| match identifier {
        "open.md" => Some("---\nauthor: Ann\n".to_string()),
        "next.md" => Some("body before\n---\nauthor: Bob\n---\nafter\n".to_string()),
        _ => None,
    };
    let (outcomes, written) = run(&["open.md", "next.md"], &read, &[], &[]);
    assert_eq!(statuses(&outcomes), vec![FileStatus::Success, FileStatus::Success]);
    assert_eq!(
        outcomes[0].resolved_metadata.get("AuthoR"),
        Some(&YamlNode::Text("Ann".to_string()))
    );
    assert_eq!(
        outcomes[1].resolved_metadata.get("AuthoR"),
        Some(&YamlNode::Text("Bob".to_string()))
    );
    assert_eq!(written[0], ("open.pdf".to_string(), Vec::new()));
    assert_eq!(written[1], ("next.pdf".to_string(), b"<p>after</p>\n".to_vec()));
}

#[test]
fn an_empty_batch_is_finished_at_once() {
    let mut pipeline = Pipeline::new(Vec::new(), Vec::new());
    assert!(pipeline.is_finished());
    assert!(matches!(pipeline.next_action(), Action::Finished));
    pipeline.advance(Event::ReadDone(None));
    assert!(pipeline.is_finished());
    assert_eq!(pipeline.outcomes().len(), 0);
}

#[test]
fn an_event_that_answers_no_pending_action_is_ignored() {
    let mut pipeline = Pipeline::new(vec!["a.md".to_string(), "b.md".to_string()], Vec::new());
    pipeline.advance(Event::WriteDone(true));
    pipeline.advance(Event::RenderDone(Some(vec![1, 2, 3])));
    assert_eq!(pipeline.outcomes().len(), 0);
    assert!(matches!(pipeline.next_action(), Action::Read("a.md")));
    pipeline.advance(Event::ReadDone(Some(lines_of("---\n---\nx\n"))));
    pipeline.advance(Event::ReadDone(None));
    pipeline.advance(Event::WriteDone(false));
    assert_eq!(pipeline.outcomes().len(), 0);
    match pipeline.next_action() {
        Action::Render { html, payload } => {
            assert_eq!(html, "<p>x</p>\n");
            assert_eq!(payload, "data:text/html;charset=utf-8,%3Cp%3Ex%3C/p%3E%0A");
        }
        other => panic!("unexpected action {:?}", other),
    }
    pipeline.advance(Event::RenderDone(Some(vec![9])));
    pipeline.advance(Event::RenderDone(None));
    match pipeline.next_action() {
        Action::Write { output_name, pdf } => {
            assert_eq!(output_name, "a.pdf");
            assert_eq!(pdf, &vec![9u8]);
        }
        other => panic!("unexpected action {:?}", other),
    }
    pipeline.advance(Event::WriteDone(true));
    assert_eq!(pipeline.outcomes().len(), 1);
    assert_eq!(pipeline.outcomes()[0].status, FileStatus::Success);
    assert!(!pipeline.is_finished());
    assert!(matches!(pipeline.next_action(), Action::Read("b.md")));
    pipeline.advance(Event::ReadDone(None));
    assert!(pipeline.is_finished());
    pipeline.advance(Event::ReadDone(None));
    assert_eq!(pipeline.outcomes().len(), 2);
    assert_eq!(pipeline.outcomes()[1].status, FileStatus::ReadError);
    assert_eq!(pipeline.outcomes()[1].identifier, "b.md");
}

/// Runs a batch through `read_file_data` with the same collaborators as `run`.
fn run_with_closures(
    inputs: &[&str],
    render_fails: &[&str],
    write_fails: &[&str],
) -> (Vec<Outcome>, Vec<(String, Vec<u8>)>) {
    let written = RefCell::new(Vec::new());
    let outcomes = read_file_data(
        inputs.to_vec(),
        default_bindings(),
        |identifier: &str| library(identifier).map(|text| lines_of(&text)),
        |html: &str, payload: &str| {
            assert!(payload.starts_with("data:text/html;charset=utf-8,"));
            let failing = render_fails.iter().any(|id| library(id).is_some() && {
                let doc = pdf_ok::prepare_document(id, &lines_of(&library(id).unwrap()), &Vec::new());
                doc.html == html
            });
            if failing {
                None
            } else {
                Some(html.as_bytes().to_vec())
            }
        },
        |output_name: &str, pdf: &Vec<u8>| {
            if write_fails.contains(&output_name) {
                false
            } else {
                written.borrow_mut().push((output_name.to_string(), pdf.clone()));
                true
            }
        },
    );
    (outcomes, written.into_inner())
}

#[test]
fn batch_gives_one_record_for_each_input() {
    let inputs = ["source_mds/untitled.md", "source_mds/file_not_found.md", "source_mds/file_02.md"];
    let (outcomes, written) = run_with_closures(&inputs, &[], &[]);
    assert_eq!(outcomes.len(), 3);
    assert_eq!(
        statuses(&outcomes),
        vec![FileStatus::Success, FileStatus::ReadError, FileStatus::Success]
    );
    for (outcome, input) in outcomes.iter().zip(inputs) {
        assert_eq!(outcome.identifier, input);
    }
    assert_eq!(
        written,
        vec![
            ("untitled.pdf".to_string(), b"<h1>One</h1>\n".to_vec()),
            ("file_02.pdf".to_string(), b"<p>Two</p>\n".to_vec()),
        ]
    );
}

#[test]
fn batch_goes_on_after_each_kind_of_failure() {
    let inputs = [
        "source_mds/missing.md",
        "source_mds/untitled.md",
        "source_mds/file_02.md",
        "source_mds/third.md",
    ];
    let (outcomes, written) =
        run_with_closures(&inputs, &["source_mds/untitled.md"], &["file_02.pdf"]);
    assert_eq!(
        statuses(&outcomes),
        vec![
            FileStatus::ReadError,
            FileStatus::RenderError,
            FileStatus::WriteError,
            FileStatus::Success
        ]
    );
    assert_eq!(written, vec![("third.pdf".to_string(), b"<p><em>3</em></p>\n".to_vec())]);
    assert_eq!(
        outcomes[1].resolved_metadata.get("AuthoR"),
        Some(&YamlNode::Text("Ann".to_string()))
    );
}

#[test]
fn batch_agrees_with_the_stepwise_pipeline() {
    let inputs = ["source_mds/untitled.md", "source_mds/nope.md", "source_mds/third.md"];
    let (by_steps, written_by_steps) = run(&inputs, &library, &["source_mds/third.md"], &[]);
    let (at_once, written_at_once) = run_with_closures(&inputs, &["source_mds/third.md"], &[]);
    assert_eq!(written_by_steps, written_at_once);
    assert_eq!(by_steps.len(), at_once.len());
    for (a, b) in by_steps.iter().zip(at_once.iter()) {
        assert_eq!(a.identifier, b.identifier);
        assert_eq!(a.status, b.status);
        assert_eq!(a.metadata_found, b.metadata_found);
        assert_eq!(a.resolved_metadata, b.resolved_metadata);
    }
}

#[test]
fn batch_of_nothing_calls_nothing() {
    let outcomes = read_file_data(
        Vec::new(),
        default_bindings(),
        |_: &str| -> Option<Vec<String>> { panic!("nothing to read") },
        |_: &str, _: &str| -> Option<Vec<u8>> { panic!("nothing to render") },
        |_: &str, _: &Vec<u8>| -> bool { panic!("nothing to write") },
    );
    assert_eq!(outcomes.len(), 0);
}

#[test]
fn a_doubled_suffix_loses_only_its_last_part() {
    let read = |identifier: &str| match identifier {
        "notes/a.md.md" => Some("---\n---\nx\n".to_string()),
        _ => None,
    };
    let (outcomes, written) = run(&["notes/a.md.md"], &read, &[], &[]);
    assert_eq!(statuses(&outcomes), vec![FileStatus::Success]);
    assert_eq!(written, vec![("a.md.pdf".to_string(), b"<p>x</p>\n".to_vec())]);
}
