use mcp::PathKind;
use mcp::enumerate::DiscoveredFile;
use mcp::enumerate::InputRecord;
use mcp::enumerate::enumerate;
use mcp::validate::CopyError;
use mcp::validate::OutputTarget;
use mcp::validate::ResolvedDestination;
use mcp::validate::SourceDescriptor;
use mcp::validate::ValidationOutcome;
use mcp::validate::decide;
use mcp::validate::planned_destinations;
use mcp::validate::resolve_destination;
use mcp::validate::validate;

fn file_source(path: &[u8]) -> SourceDescriptor {
    SourceDescriptor { absolute_path: path.to_vec(), relative_tag: None }
}

fn tagged_source(path: &[u8], tag: &[u8]) -> SourceDescriptor {
    SourceDescriptor { absolute_path: path.to_vec(), relative_tag: Some(tag.to_vec()) }
}

fn target(path: &[u8], kind: PathKind) -> OutputTarget {
    OutputTarget { path: path.to_vec(), kind }
}

#[test]
fn ambiguous_fanout_two_sources_one_file_output() {
    let sources = vec![file_source(b"a.bin"), file_source(b"b.bin")];
    let outputs = vec![target(b"dest.bin", PathKind::File)];
    let planned = planned_destinations(&sources, &outputs);
    assert_eq!(planned.len(), 2);
    let dest_is_file = vec![true, true];
    let outcome = validate(&sources, &outputs, &dest_is_file);
    assert_eq!(outcome, ValidationOutcome::AmbiguousFanout);
    assert_eq!(decide(&outcome, true), Err(CopyError::AmbiguousFanout));
    assert_eq!(decide(&outcome, false), Err(CopyError::AmbiguousFanout));
}

#[test]
fn single_source_existing_file_output_needs_confirmation() {
    let sources = vec![file_source(b"a.bin")];
    let outputs = vec![target(b"dest.bin", PathKind::File)];
    let dest_is_file = vec![true];
    let outcome = validate(&sources, &outputs, &dest_is_file);
    assert_eq!(outcome, ValidationOutcome::NeedsConfirmation(0));
    assert_eq!(decide(&outcome, true), Ok(()));
    assert_eq!(decide(&outcome, false), Err(CopyError::UserCancelled));
}

#[test]
fn fresh_destinations_accepted_without_prompt() {
    let sources = vec![file_source(b"a.bin")];
    let outputs = vec![
        target(b"out", PathKind::Dir),
        target(b"copy.bin", PathKind::Missing),
    ];
    let dest_is_file = vec![false, false];
    let outcome = validate(&sources, &outputs, &dest_is_file);
    assert_eq!(outcome, ValidationOutcome::Accept);
    assert_eq!(decide(&outcome, false), Ok(()));
}

#[test]
fn first_collision_is_reported() {
    let sources = vec![file_source(b"a.bin")];
    let outputs = vec![
        target(b"out", PathKind::Dir),
        target(b"busy.bin", PathKind::Missing),
        target(b"other", PathKind::Dir),
    ];
    let dest_is_file = vec![false, true, true];
    let outcome = validate(&sources, &outputs, &dest_is_file);
    assert_eq!(outcome, ValidationOutcome::NeedsConfirmation(1));
}

#[test]
fn resolve_under_directory_uses_file_name() {
    let out = target(b"out1/", PathKind::Dir);
    let src = file_source(b"report.txt");
    let r: ResolvedDestination = resolve_destination(&out, &src);
    assert_eq!(r.final_path, b"out1/report.txt".to_vec());
    assert!(!r.is_new_directory_needed);
}

#[test]
fn resolve_mirrors_tag_under_directory() {
    let out = target(b"B", PathKind::Dir);
    let src = tagged_source(b"A/x/y.txt", b"A/x");
    let r = resolve_destination(&out, &src);
    assert_eq!(r.final_path, b"B/A/x/y.txt".to_vec());
    assert!(r.is_new_directory_needed);
}

#[test]
fn resolve_plain_target_is_verbatim() {
    let out = target(b"out2/report.txt", PathKind::Missing);
    let src = file_source(b"report.txt");
    let r = resolve_destination(&out, &src);
    assert_eq!(r.final_path, b"out2/report.txt".to_vec());
    assert!(!r.is_new_directory_needed);
}

#[test]
fn planned_destinations_order_outputs_outer() {
    let sources = vec![file_source(b"d/a.txt"), file_source(b"b.txt")];
    let outputs = vec![
        target(b"out", PathKind::Dir),
        target(b"two", PathKind::Dir),
    ];
    let planned = planned_destinations(&sources, &outputs);
    assert_eq!(planned.len(), 4);
    assert_eq!(planned[0].final_path, b"out/a.txt".to_vec());
    assert_eq!(planned[1].final_path, b"out/b.txt".to_vec());
    assert_eq!(planned[2].final_path, b"two/a.txt".to_vec());
    assert_eq!(planned[3].final_path, b"two/b.txt".to_vec());
}

#[test]
fn enumerate_rejects_missing_input() {
    let inputs = vec![
        InputRecord { path: b"a.txt".to_vec(), kind: PathKind::File, discovered: vec![] },
        InputRecord { path: b"gone".to_vec(), kind: PathKind::Missing, discovered: vec![] },
    ];
    assert_eq!(enumerate(&inputs).unwrap_err(), CopyError::InvalidInput);
}

#[test]
fn enumerate_flattens_in_order_with_tags() {
    let inputs = vec![
        InputRecord { path: b"one.txt".to_vec(), kind: PathKind::File, discovered: vec![] },
        InputRecord {
            path: b"A".to_vec(),
            kind: PathKind::Dir,
            discovered: vec![
                DiscoveredFile { path: b"A/x/y.txt".to_vec(), tag: b"A/x".to_vec() },
                DiscoveredFile { path: b"A/z.txt".to_vec(), tag: b"A".to_vec() },
            ],
        },
    ];
    let descs = enumerate(&inputs).unwrap();
    assert_eq!(descs.len(), 3);
    assert_eq!(descs[0].absolute_path, b"one.txt".to_vec());
    assert_eq!(descs[0].relative_tag, None);
    assert_eq!(descs[1].absolute_path, b"A/x/y.txt".to_vec());
    assert_eq!(descs[1].relative_tag, Some(b"A/x".to_vec()));
    assert_eq!(descs[2].absolute_path, b"A/z.txt".to_vec());
    assert_eq!(descs[2].relative_tag, Some(b"A".to_vec()));
}

#[test]
fn error_messages_match() {
    assert_eq!(
        CopyError::AmbiguousFanout.message(),
        "Only one input and multiple output files, or multiple inputs and output folders supported!"
    );
    assert_eq!(CopyError::UserCancelled.message(), "Cancel copy process.");
    assert_eq!(CopyError::InvalidInput.message(), "Only existing files as input are supported!");
}
