use verb_engine::template::substitute;

#[test]
fn file_placeholder_expands_to_the_path() {
    assert_eq!(substitute("{file}", "/tmp/x"), "/tmp/x");
}

#[test]
fn text_outside_placeholders_is_kept_verbatim() {
    assert_eq!(substitute("edit {file}", "/tmp/x.txt"), "edit /tmp/x.txt");
}

#[test]
fn every_file_occurrence_is_replaced() {
    assert_eq!(substitute("cp {file} {file}.bak", "/a"), "cp /a /a.bak");
}

#[test]
fn unknown_identifier_degrades_to_the_sentinel() {
    assert_eq!(substitute("run {bogus}", "/tmp/x"), "run -hu?-");
}

#[test]
fn two_distinct_placeholders_expand_independently() {
    assert_eq!(substitute("{file} {bogus}", "/a/b"), "/a/b -hu?-");
}

#[test]
fn template_without_placeholders_is_unchanged() {
    assert_eq!(substitute("ls -la", "/tmp/x"), "ls -la");
}

#[test]
fn empty_template_stays_empty() {
    assert_eq!(substitute("", "/tmp/x"), "");
}

#[test]
fn empty_braces_are_no_placeholder() {
    assert_eq!(substitute("a {} b", "/tmp/x"), "a {} b");
}

#[test]
fn dotted_identifier_is_a_placeholder() {
    assert_eq!(substitute("{some.key}", "/tmp/x"), "-hu?-");
}

#[test]
fn identifiers_are_case_sensitive() {
    assert_eq!(substitute("{File}", "/tmp/x"), "-hu?-");
}

#[test]
fn unclosed_brace_is_literal_text() {
    assert_eq!(substitute("{file", "/tmp/x"), "{file");
}

#[test]
fn brace_before_placeholder_is_literal() {
    assert_eq!(substitute("{a{b}", "/tmp/x"), "{a-hu?-");
}

#[test]
fn replacement_text_is_not_rescanned() {
    assert_eq!(substitute("{file}", "{bogus}"), "{bogus}");
}

#[test]
fn space_breaks_an_identifier_run() {
    assert_eq!(substitute("{no pe}", "/tmp/x"), "{no pe}");
}

#[test]
fn accented_identifier_is_a_placeholder() {
    // {é}: a Unicode letter forms an identifier, and an unknown one
    // degrades to the sentinel
    assert_eq!(substitute("{\u{e9}}", "/tmp/x"), "-hu?-");
}

#[test]
fn accented_identifier_is_not_the_file_identifier() {
    assert_eq!(substitute("{fil\u{e9}}", "/tmp/x"), "-hu?-");
}

#[test]
fn non_ascii_text_outside_placeholders_is_kept() {
    assert_eq!(substitute("caf\u{e9} {file}", "/tmp/x"), "caf\u{e9} /tmp/x");
}

#[test]
fn non_word_unicode_character_breaks_an_identifier_run() {
    // an em dash is neither a letter nor a number, so no placeholder forms
    assert_eq!(substitute("{a\u{2014}b}", "/tmp/x"), "{a\u{2014}b}");
}

#[test]
fn path_may_hold_non_ascii_characters() {
    assert_eq!(substitute("edit {file}", "/tmp/caf\u{e9}"), "edit /tmp/caf\u{e9}");
}
