use texcompile::paths::output_path;

fn bytes(s: &str) -> Vec<u8> {
    s.as_bytes().to_vec()
}

#[test]
fn replaces_extension() {
    assert_eq!(output_path(&bytes("/tmp/a.tex")), bytes("/tmp/a.pdf"));
}

#[test]
fn appends_when_no_extension() {
    assert_eq!(output_path(&bytes("/tmp/.tmpAbC12")), bytes("/tmp/.tmpAbC12.pdf"));
}

#[test]
fn dot_in_directory_does_not_count() {
    assert_eq!(output_path(&bytes("/tmp/v1.2/file")), bytes("/tmp/v1.2/file.pdf"));
}

#[test]
fn last_dot_wins() {
    assert_eq!(output_path(&bytes("a/b.c.d")), bytes("a/b.c.pdf"));
}

#[test]
fn bare_file_name() {
    assert_eq!(output_path(&bytes("notes.tex")), bytes("notes.pdf"));
}

#[test]
fn leading_dot_alone_is_no_extension() {
    assert_eq!(output_path(&bytes(".hidden")), bytes(".hidden.pdf"));
}

#[test]
fn dot_after_leading_dot_is_an_extension() {
    assert_eq!(output_path(&bytes("/tmp/.tmpQ7.log")), bytes("/tmp/.tmpQ7.pdf"));
}

#[test]
fn empty_path() {
    assert_eq!(output_path(&Vec::new()), bytes(".pdf"));
}
