use orbtiama_core::deserialize::file::lexer::{FileLexer, SiMaiFile};

const METADATA_TEST: &str = r"
&title=Never Give Up!
&wholebpm=171
&artist=nanobii
&des=7.3連発華火
&shortid=11232
&genre=maimai
&cabinet=DX
&version=maimai DX Splash PLUS
&chartconverter=Neskol

    ";

#[test]
fn metadata_test() {
    let lexer = SiMaiFile::try_from(METADATA_TEST);
    let Ok(lex) = lexer else {
        panic!("failed to parse file");
    };
    assert_eq!(lex.get("title").unwrap().as_str(), "Never Give Up!");
}

#[test]
fn metadata_all_entries() {
    let lex = SiMaiFile::parse(METADATA_TEST).expect("failed to parse file");
    assert_eq!(lex.len(), 9);
    assert_eq!(lex.get("des").unwrap().as_str(), "7.3連発華火");
    assert_eq!(lex.get("chartconverter").unwrap().as_str(), "Neskol");
    assert_eq!(lex.get("version").unwrap().as_str(), "maimai DX Splash PLUS");
    assert!(lex.get("missing").is_none());
}

#[test]
fn multiline_content_is_kept() {
    let file = SiMaiFile::try_from("&name=Foo\n&inote_1=Bar\nE").expect("failed to parse");
    assert_eq!(file.len(), 2);
    assert_eq!(file.get("name").unwrap().as_str(), "Foo");
    assert_eq!(file.get("inote_1").unwrap().as_str(), "Bar\nE");
}

#[test]
fn later_entry_replaces_earlier() {
    let file = SiMaiFile::parse("&a=1\n&b=2\n&a= 3 \n").expect("failed to parse");
    assert_eq!(file.len(), 2);
    assert_eq!(file.get("a").unwrap().as_str(), "3");
    assert_eq!(file.get("b").unwrap().as_str(), "2");
    let keys: Vec<&str> = file.entries().iter().map(|e| e.0.as_str()).collect();
    assert_eq!(keys, vec!["a", "b"]);
}

#[test]
fn keys_and_contents_are_trimmed() {
    let file = SiMaiFile::parse("  \n& first =\t value with = sign \u{3000}\n").expect("failed");
    assert_eq!(file.get("first").unwrap().as_str(), "value with = sign");
}

#[test]
fn ampersand_inside_a_line_stays_in_content() {
    let file = SiMaiFile::parse("&inote_1=1,2&3,\n4,\nE").expect("failed");
    assert_eq!(file.len(), 1);
    assert_eq!(file.get("inote_1").unwrap().as_str(), "1,2&3,\n4,\nE");
}

#[test]
fn empty_and_blank_files_have_no_entries() {
    assert_eq!(SiMaiFile::parse("").expect("empty").len(), 0);
    assert_eq!(SiMaiFile::parse(" \n\t\n").expect("blank").len(), 0);
}

#[test]
fn text_before_first_entry_is_refused() {
    assert_eq!(SiMaiFile::parse("hello\n&a=b").unwrap_err(), "lexer failed");
    assert_eq!(SiMaiFile::parse("  &a=b").unwrap_err(), "lexer failed");
}

#[test]
fn try_from_never_fails() {
    let file = SiMaiFile::try_from("hello\n&a=b").expect("try_from gives a file");
    assert_eq!(file.len(), 0);
    assert!(file.get("a").is_none());
    assert_eq!(SiMaiFile::try_from("x").expect("try_from gives a file").len(), 0);
    assert_eq!(SiMaiFile::try_from("").expect("try_from gives a file").len(), 0);
}

#[test]
fn entry_without_equals_is_skipped() {
    let file = SiMaiFile::parse("&a=1\n&b\n").expect("in the format");
    assert_eq!(file.len(), 1);
    assert_eq!(file.get("a").unwrap().as_str(), "1");
    assert!(file.get("b").is_none());
    let file = SiMaiFile::try_from("&a=b\n&c\n=d\n&e=f").expect("try_from gives a file");
    assert_eq!(file.len(), 2);
    assert_eq!(file.get("a").unwrap().as_str(), "b");
    assert_eq!(file.get("e").unwrap().as_str(), "f");
    assert_eq!(SiMaiFile::try_from("&abc").expect("try_from gives a file").len(), 0);
    let raw = FileLexer::raw_parse_str("&x\n&y=2").expect("lexer");
    assert_eq!(raw.len(), 1);
    assert_eq!(raw[0].0, "y");
}

#[test]
fn raw_entries_are_untrimmed_and_in_order() {
    let raw = FileLexer::raw_parse_str("\n&name= Foo \n&name=Bar").expect("lexer");
    assert_eq!(raw.len(), 2);
    assert_eq!(raw[0].0, "name");
    assert_eq!(raw[0].1, " Foo \n");
    assert_eq!(raw[1].1, "Bar");
    assert_eq!(FileLexer::raw_parse_str("x").unwrap_err(), "lexer failed");
}
