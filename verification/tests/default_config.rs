use process_runner::defaults::default_config_text;

#[test]
fn default_document_parses_with_documented_entries() {
    let text = default_config_text();
    let cfg = config::Config::builder()
        .add_source(config::File::from_str(text, config::FileFormat::Toml))
        .build()
        .unwrap();
    let table = cfg.get_table("process").unwrap();
    assert_eq!(table.len(), 2);

    let example = table.get("example").unwrap().clone().into_table().unwrap();
    assert_eq!(
        example.get("path").unwrap().clone().into_string().unwrap(),
        "C:\\Example\\Path\\To\\file.exe"
    );
    assert_eq!(
        example.get("args").unwrap().clone().into_string().unwrap(),
        "-e -x -a -m -p -l -e"
    );
    assert_eq!(example.get("hide").unwrap().clone().into_bool().unwrap(), false);

    let another = table.get("another_example").unwrap().clone().into_table().unwrap();
    assert_eq!(
        another.get("path").unwrap().clone().into_string().unwrap(),
        "C:\\Example2\\Path\\To\\file.exe"
    );
    assert_eq!(another.get("args").unwrap().clone().into_string().unwrap(), "");
    assert_eq!(another.get("hide").unwrap().clone().into_bool().unwrap(), true);
}
