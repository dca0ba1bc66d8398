use epub_optimizer::error::EpubError;

#[test]
fn only_a_failing_tool_lets_the_run_go_on() {
    assert!(!EpubError::ExternalToolFailure.is_fatal());
    for e in [
        EpubError::CorruptArchive,
        EpubError::MissingRootFile,
        EpubError::MalformedPackageDocument,
        EpubError::PathUnreadable,
        EpubError::OutOfSequence,
    ] {
        assert!(e.is_fatal());
    }
}

#[test]
fn every_failure_has_its_own_description() {
    let all = [
        (EpubError::CorruptArchive, "corrupt archive"),
        (EpubError::MissingRootFile, "missing root file"),
        (EpubError::MalformedPackageDocument, "malformed package document"),
        (EpubError::ExternalToolFailure, "external tool failure"),
        (EpubError::PathUnreadable, "path unreadable"),
        (EpubError::OutOfSequence, "event out of sequence"),
    ];
    for (e, text) in all {
        assert_eq!(e.describe(), text);
    }
}
