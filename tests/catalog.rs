use context_rag::catalog::{is_pdf_name, pdf_files, DirEntryInfo};

fn entry(path: &str, name: &str, is_file: bool) -> DirEntryInfo {
    DirEntryInfo { path: path.to_string(), name: name.to_string(), is_file }
}

#[test]
fn pdf_names_need_a_stem_and_the_extension() {
    assert!(is_pdf_name("policy.pdf"));
    assert!(is_pdf_name("a.b.pdf"));
    assert!(!is_pdf_name(".pdf"));
    assert!(!is_pdf_name("policy.PDF"));
    assert!(!is_pdf_name("policy.pdf.txt"));
    assert!(!is_pdf_name("pdf"));
    assert!(!is_pdf_name(""));
}

#[test]
fn only_regular_pdf_files_are_listed_in_order() {
    let entries = vec![
        entry("./assets/b.pdf", "b.pdf", true),
        entry("./assets/notes.txt", "notes.txt", true),
        entry("./assets/old.pdf", "old.pdf", false),
        entry("./assets/a.pdf", "a.pdf", true),
    ];
    assert_eq!(pdf_files(&entries), vec!["./assets/b.pdf".to_string(), "./assets/a.pdf".to_string()]);
}
