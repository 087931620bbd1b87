use comic_core::error::LoaderError;
use comic_core::js_engine::module_loader::find_object_end;
use comic_core::js_engine::module_loader::locate_object;
use comic_core::js_engine::module_loader::ModuleLoader;

fn loader_chars(text: &str) -> Vec<char> {
    text.chars().collect()
}

#[test]
fn test_extract_metadata() {
    let script = r#"
            const moduleInfo = {
                id: "test_module",
                name: "Test Module",
                version: "1.0.0",
                description: "A test module"
            };
        "#;

    let loader = ModuleLoader::new("/tmp");
    let metadata = loader.extract_metadata(script).unwrap();

    assert_eq!(metadata.id, "test_module");
    assert_eq!(metadata.name, "Test Module");
    assert_eq!(metadata.version, "1.0.0");
}

#[test]
fn extract_metadata_reads_the_description() {
    let script = r#"const moduleInfo = { id: "a", name: "b", version: "c", description: "A test module" };"#;
    let metadata = ModuleLoader::new("/tmp").extract_metadata(script).unwrap();
    assert_eq!(metadata.description, "A test module");
}

#[test]
fn extract_metadata_without_description_leaves_it_empty() {
    let script = r#"const moduleInfo = { id: "a", name: "b", version: "c" };"#;
    let metadata = ModuleLoader::new("/tmp").extract_metadata(script).unwrap();
    assert_eq!(metadata.id, "a");
    assert_eq!(metadata.name, "b");
    assert_eq!(metadata.version, "c");
    assert_eq!(metadata.description, "");
}

#[test]
fn extract_metadata_needs_id_name_and_version() {
    let loader = ModuleLoader::new("/tmp");
    let no_id = r#"const moduleInfo = { name: "b", version: "c" };"#;
    assert_eq!(
        loader.extract_metadata(no_id).unwrap_err(),
        LoaderError::FieldNotFound("id".to_string())
    );
    let no_name = r#"const moduleInfo = { id: "a", version: "c" };"#;
    assert_eq!(
        loader.extract_metadata(no_name).unwrap_err(),
        LoaderError::FieldNotFound("name".to_string())
    );
    let no_version = r#"const moduleInfo = { id: "a", name: "b" };"#;
    assert_eq!(
        loader.extract_metadata(no_version).unwrap_err(),
        LoaderError::FieldNotFound("version".to_string())
    );
}

#[test]
fn extract_field_without_module_info_fails() {
    let loader = ModuleLoader::new("/tmp");
    assert_eq!(
        loader.extract_field("const other = { id: \"a\" };", "id").unwrap_err(),
        LoaderError::ModuleInfoNotFound
    );
    assert_eq!(loader.extract_field("", "id").unwrap_err(), LoaderError::ModuleInfoNotFound);
}

#[test]
fn extract_field_without_object_fails() {
    let loader = ModuleLoader::new("/tmp");
    assert_eq!(
        loader.extract_field("const moduleInfo = 3;", "id").unwrap_err(),
        LoaderError::ObjectNotFound
    );
    // A brace before the name does not count.
    assert_eq!(
        loader.extract_field("{ id: \"a\" } moduleInfo", "id").unwrap_err(),
        LoaderError::ObjectNotFound
    );
}

#[test]
fn extract_field_with_a_field_that_is_no_pattern_fails() {
    let loader = ModuleLoader::new("/tmp");
    let script = r#"const moduleInfo = { id: "a" };"#;
    assert_eq!(loader.extract_field(script, "(").unwrap_err(), LoaderError::InvalidPattern);
}

#[test]
fn extract_field_accepts_module_dot_info() {
    let loader = ModuleLoader::new("/tmp");
    let script = "module.info = { id: 'dotted' };";
    assert_eq!(loader.extract_field(script, "id").unwrap(), "dotted");
}

#[test]
fn extract_field_prefers_module_info_over_module_dot_info() {
    let loader = ModuleLoader::new("/tmp");
    let script = "module.info = { id: 'first' }; moduleInfo = { id: 'second' };";
    assert_eq!(loader.extract_field(script, "id").unwrap(), "second");
}

#[test]
fn extract_field_reads_quoted_keys_and_single_quotes() {
    let loader = ModuleLoader::new("/tmp");
    let script = r#"const moduleInfo = { "name": 'Quoted' };"#;
    assert_eq!(loader.extract_field(script, "name").unwrap(), "Quoted");
}

#[test]
fn extract_field_looks_inside_the_object_first() {
    let loader = ModuleLoader::new("/tmp");
    let script = r#"const other = { version: "0.0.1" }; const moduleInfo = { version: "2.0.0" };"#;
    assert_eq!(loader.extract_field(script, "version").unwrap(), "2.0.0");
}

#[test]
fn extract_field_falls_back_to_the_whole_script() {
    let loader = ModuleLoader::new("/tmp");
    let script = r#"const moduleInfo = { id: "a" }; const extra = { version: "9.9" };"#;
    assert_eq!(loader.extract_field(script, "version").unwrap(), "9.9");
}

#[test]
fn extract_field_bare_key_wins_over_quoted_key() {
    let loader = ModuleLoader::new("/tmp");
    let script = r#"const moduleInfo = { "id": "quoted", id: "bare" };"#;
    // The bare pattern also matches behind the quote of the quoted key.
    assert_eq!(loader.extract_field(script, "id").unwrap(), "bare");
    let only_quoted = r#"const moduleInfo = { "id" : "x", "id": "quoted" };"#;
    assert_eq!(loader.extract_field(only_quoted, "id").unwrap(), "quoted");
}

#[test]
fn extract_field_ignores_what_follows_the_object() {
    let loader = ModuleLoader::new("/tmp");
    let script = r#"const moduleInfo = { inner: { id: "nested" } }; const later = { id: "later" };"#;
    assert_eq!(loader.extract_field(script, "id").unwrap(), "nested");
}

#[test]
fn extract_field_handles_text_beyond_ascii() {
    let loader = ModuleLoader::new("/tmp");
    let script = "// 模块\nconst moduleInfo = { name: \"漫画源\", id: \"m1\" }; // 结束";
    assert_eq!(loader.extract_field(script, "name").unwrap(), "漫画源");
    assert_eq!(loader.extract_field(script, "id").unwrap(), "m1");
}

#[test]
fn locate_object_finds_the_braces() {
    let chars = loader_chars("x moduleInfo = { a: 1 } y");
    assert_eq!(locate_object(&chars), Ok((15, 23)));
}

#[test]
fn locate_object_reports_what_is_missing() {
    assert_eq!(locate_object(&loader_chars("nothing here")), Err(LoaderError::ModuleInfoNotFound));
    assert_eq!(locate_object(&loader_chars("moduleInfo")), Err(LoaderError::ObjectNotFound));
}

#[test]
fn find_object_end_matches_nested_braces() {
    let chars = loader_chars("{ a: { b: { c: 1 } } } tail }");
    assert_eq!(find_object_end(&chars, 0), 22);
    assert_eq!(find_object_end(&chars, 5), 20);
}

#[test]
fn find_object_end_skips_braces_in_strings() {
    let chars = loader_chars("{ a: \"}\", b: '}' } rest");
    assert_eq!(find_object_end(&chars, 0), 18);
}

#[test]
fn find_object_end_keeps_a_string_open_over_an_escaped_quote() {
    let chars = loader_chars(r#"{ a: "x\"}" } rest"#);
    assert_eq!(find_object_end(&chars, 0), 13);
}

#[test]
fn find_object_end_lets_the_other_quote_stand_in_a_string() {
    let chars = loader_chars(r#"{ a: "it's }" }"#);
    assert_eq!(find_object_end(&chars, 0), 15);
}

#[test]
fn find_object_end_of_an_unclosed_object_is_behind_its_brace() {
    let chars = loader_chars("{ a: { b: 1 }");
    assert_eq!(find_object_end(&chars, 0), 1);
    let in_string = loader_chars("{ a: \"never closed }");
    assert_eq!(find_object_end(&in_string, 0), 1);
}

#[test]
fn extract_field_of_an_unclosed_object_searches_the_whole_script() {
    let loader = ModuleLoader::new("/tmp");
    let script = r#"const moduleInfo = { id: "open""#;
    assert_eq!(loader.extract_field(script, "id").unwrap(), "open");
}

#[test]
fn validate_script_accepts_a_described_module() {
    let loader = ModuleLoader::new("/tmp");
    let script = r#"const moduleInfo = { id: "a", name: "b", version: "c" };"#;
    assert_eq!(loader.validate_script(script), Ok(()));
}

#[test]
fn validate_script_refuses_a_script_without_description_object() {
    let loader = ModuleLoader::new("/tmp");
    assert_eq!(
        loader.validate_script("function getCategories() {}"),
        Err(LoaderError::ModuleInfoNotFound)
    );
    assert_eq!(
        loader.validate_script(r#"const moduleInfo = { id: "a" };"#),
        Err(LoaderError::FieldNotFound("name".to_string()))
    );
}

#[test]
fn missing_functions_lists_what_is_not_mentioned() {
    let loader = ModuleLoader::new("/tmp");
    let script = "function getCategories() {}\nconst getComicList = () => {};\nmodule = { getComicDetail: f };";
    assert_eq!(loader.missing_functions(script), vec!["getChapterImages".to_string()]);
    assert_eq!(
        loader.missing_functions(""),
        vec![
            "getCategories".to_string(),
            "getComicList".to_string(),
            "getComicDetail".to_string(),
            "getChapterImages".to_string()
        ]
    );
}

#[test]
fn missing_functions_wants_the_exact_forms() {
    let loader = ModuleLoader::new("/tmp");
    // A bare mention, or `=` without the space before it, is no definition.
    let script = "getCategories(); getComicList= 1; function  getComicDetail() {} getChapterImages :";
    assert_eq!(
        loader.missing_functions(script),
        vec![
            "getCategories".to_string(),
            "getComicList".to_string(),
            "getComicDetail".to_string(),
            "getChapterImages".to_string()
        ]
    );
    let all = "function getCategories function getComicList getComicDetail = getChapterImages:";
    assert_eq!(loader.missing_functions(all), Vec::<String>::new());
}

#[test]
fn new_keeps_the_directory() {
    assert_eq!(ModuleLoader::new("/tmp").modules_dir(), "/tmp");
    assert_eq!(ModuleLoader::new("modules/源").modules_dir(), "modules/源");
}

#[test]
fn script_file_name_adds_the_extension() {
    assert_eq!(ModuleLoader::script_file_name("copymanga"), "copymanga.js");
    assert_eq!(ModuleLoader::script_file_name(""), ".js");
}

#[test]
fn module_id_is_the_stem_of_a_script_file() {
    assert_eq!(ModuleLoader::module_id("copymanga.js"), Some("copymanga".to_string()));
    assert_eq!(ModuleLoader::module_id("a.b.js"), Some("a.b".to_string()));
    assert_eq!(ModuleLoader::module_id("源.js"), Some("源".to_string()));
    assert_eq!(ModuleLoader::module_id("..js"), Some(".".to_string()));
}

#[test]
fn module_id_of_other_files_is_none() {
    assert_eq!(ModuleLoader::module_id(".js"), None);
    assert_eq!(ModuleLoader::module_id("js"), None);
    assert_eq!(ModuleLoader::module_id(""), None);
    assert_eq!(ModuleLoader::module_id("readme.md"), None);
    assert_eq!(ModuleLoader::module_id("script.JS"), None);
    assert_eq!(ModuleLoader::module_id("script.js.bak"), None);
    assert_eq!(ModuleLoader::module_id("scriptjs"), None);
}

#[test]
fn module_id_undoes_script_file_name() {
    for id in ["a", "copymanga", "with.dot", "源"] {
        let name = ModuleLoader::script_file_name(id);
        assert_eq!(ModuleLoader::module_id(&name), Some(id.to_string()));
    }
}

#[test]
fn loader_error_messages() {
    assert_eq!(LoaderError::ModuleInfoNotFound.message(), "moduleInfo not found");
    assert_eq!(LoaderError::ObjectNotFound.message(), "moduleInfo object not found");
    assert_eq!(LoaderError::InvalidPattern.message(), "Field name is not a valid pattern");
    assert_eq!(
        LoaderError::FieldNotFound("version".to_string()).message(),
        "Field 'version' not found in module script"
    );
}
