use process_runner::args::{join_args, split_args};

#[test]
fn split_discards_empty_tokens() {
    let toks = split_args("  -e  -x   -a ");
    assert_eq!(toks, vec!["-e".to_string(), "-x".to_string(), "-a".to_string()]);
}

#[test]
fn split_of_empty_and_all_space_strings_is_empty() {
    assert_eq!(split_args("").len(), 0);
    assert_eq!(split_args("   ").len(), 0);
}

#[test]
fn split_of_single_token_is_that_token() {
    assert_eq!(split_args("-v"), vec!["-v".to_string()]);
}

#[test]
fn split_join_split_round_trip() {
    let s = " -e -x  -a -m   -p -l -e ";
    let toks = split_args(s);
    let joined = join_args(&toks);
    assert_eq!(joined, "-e -x -a -m -p -l -e");
    let toks2 = split_args(&joined);
    assert_eq!(toks2, toks);
}

#[test]
fn join_of_no_tokens_is_empty() {
    let toks: Vec<String> = Vec::new();
    assert_eq!(join_args(&toks), "");
}
