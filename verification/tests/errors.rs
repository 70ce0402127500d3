use scriptx::errors::{Error, Errors, ScriptxErrors};

#[test]
fn probing_failure_has_its_text() {
    assert_eq!(Errors::FileError.message(), "FileError:");
}

#[test]
fn program_failures_have_their_texts() {
    assert_eq!(ScriptxErrors::DependencyError.message(), "DependencyError:");
    assert_eq!(ScriptxErrors::FileError.message(), "LibraryError:");
}

#[test]
fn lookup_failures_are_told_apart() {
    let not_found = Error::VerseNotFound { verse: String::from("John 3:27") };
    assert_eq!(not_found, Error::VerseNotFound { verse: String::from("John 3:27") });
    assert_ne!(not_found, Error::VerseNotFound { verse: String::from("John 3:28") });
    assert_ne!(not_found, Error::PrefixNotMatch);
    assert_ne!(Error::PrefixNotMatch, Error::InvalidRangeFormat);
    assert_ne!(
        Error::VerseFromTitle { item: String::from("x") },
        Error::VerseNotFound { verse: String::from("x") }
    );
}
