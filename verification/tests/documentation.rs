use sanitize::sanitize_documentation;

#[test]
fn sanitize_code_block() {
    assert_eq!(
        &sanitize_documentation("```\nfoo\n```\n").unwrap(),
        "``` text\nfoo\n```\n"
    );
}

#[test]
fn sanitize_code_blocks() {
    assert_eq!(
        &sanitize_documentation("```\nfoo\n```\n\n```\nbar\n```\n").unwrap(),
        "``` text\nfoo\n```\n\n``` text\nbar\n```\n"
    );
}

#[test]
fn tagged_block_kept() {
    assert_eq!(
        &sanitize_documentation("``` rust\nbar\n```\n").unwrap(),
        "``` rust\nbar\n```\n"
    );
}

#[test]
fn sanitizing_twice_keeps_the_output() {
    let once = sanitize_documentation("```\nfoo\n```\n\ntext around\n\n```\nbar\n```\n").unwrap();
    let twice = sanitize_documentation(&once).unwrap();
    assert_eq!(once, twice);
}

#[test]
fn plain_paragraph_untouched() {
    assert_eq!(&sanitize_documentation("hello world\n").unwrap(), "hello world\n");
}

#[test]
fn empty_document_allowed() {
    assert_eq!(&sanitize_documentation("").unwrap(), "");
}

#[test]
fn indented_block_not_fenced() {
    let out = sanitize_documentation("    foo bar\n").unwrap();
    assert!(!out.contains("```"));
}

#[test]
fn heading_and_block_both_kept() {
    assert_eq!(
        &sanitize_documentation("# title\n\n```\nfoo\n```\n").unwrap(),
        "# title\n\n``` text\nfoo\n```\n"
    );
}
