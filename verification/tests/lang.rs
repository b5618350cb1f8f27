use codie::lang::{all_langs, get_lang_by_code, Lang, OptionsError};
use codie::options_parser::{parse_options, Options};

#[test]
fn lookup_is_case_insensitive() {
    assert_eq!(get_lang_by_code("python"), Some(Lang::Python));
    assert_eq!(get_lang_by_code("PYTHON"), Some(Lang::Python));
    assert_eq!(get_lang_by_code("Py"), Some(Lang::Python));
    assert_eq!(get_lang_by_code("RS"), Some(Lang::Rust));
    assert_eq!(get_lang_by_code("C++"), Some(Lang::Cpp));
    assert_eq!(get_lang_by_code("golang"), Some(Lang::Go));
    assert_eq!(get_lang_by_code("F95"), Some(Lang::Fortran));
}

#[test]
fn lookup_rejects_unknown_codes() {
    assert_eq!(get_lang_by_code("cobol"), None);
    assert_eq!(get_lang_by_code(""), None);
    assert_eq!(get_lang_by_code("pythons"), None);
}

#[test]
fn defaults_resolve_for_every_variant() {
    for lang in all_langs() {
        assert!(lang.run_spec(Options::default()).is_ok(), "{:?}", lang);
    }
}

#[test]
fn python_default_recipe() {
    let opts = parse_options("").unwrap();
    let spec = Lang::Python.run_spec(opts).unwrap();
    assert_eq!(spec.image_name, "python3.9-scipy");
    assert_eq!(spec.code_path, "/tmp/run.py");
    assert_eq!(
        spec.dockerfile,
        "\nFROM python:3.9-slim-buster\nENV PYTHONUNBUFFERED=1\nRUN pip install numpy scipy sympy\nCMD python /tmp/run.py\n",
    );
}

#[test]
fn python_bundle_none_omits_install_step() {
    let opts = parse_options("version=3.8 bundle=none").unwrap();
    let spec = Lang::Python.run_spec(opts).unwrap();
    assert_eq!(spec.image_name, "python3.8-none");
    assert!(!spec.dockerfile.contains("pip install"));
    assert_eq!(
        spec.dockerfile,
        "\nFROM python:3.8-slim-buster\nENV PYTHONUNBUFFERED=1\n\nCMD python /tmp/run.py\n",
    );
}

#[test]
fn unknown_key_is_reported() {
    for lang in all_langs() {
        let opts = parse_options("foo=bar").unwrap();
        assert_eq!(
            lang.run_spec(opts),
            Err(OptionsError::UnknownKeys(vec!["foo".into()])),
            "{:?}",
            lang,
        );
    }
}

#[test]
fn unknown_value_is_reported() {
    let opts = parse_options("version=2.7").unwrap();
    assert_eq!(
        Lang::Python.run_spec(opts),
        Err(OptionsError::UnknownValue("2.7".into())),
    );
    let opts = parse_options("bundle=everything").unwrap();
    assert_eq!(
        Lang::Python.run_spec(opts),
        Err(OptionsError::UnknownValue("everything".into())),
    );
}

#[test]
fn resolution_is_deterministic() {
    let a = Lang::Python.run_spec(parse_options("version=3.8").unwrap()).unwrap();
    let b = Lang::Python.run_spec(parse_options("version=3.8").unwrap()).unwrap();
    assert_eq!(a.image_name, b.image_name);
    assert_eq!(a.dockerfile, b.dockerfile);
    assert_eq!(a, b);
}

#[test]
fn versioned_images_embed_the_version() {
    let spec = Lang::JavaScript.run_spec(parse_options("version=12").unwrap()).unwrap();
    assert_eq!(spec.image_name, "nodejs12");
    assert_eq!(spec.code_path, "/tmp/index.js");
    let spec = Lang::Java.run_spec(Options::default()).unwrap();
    assert_eq!(spec.image_name, "openjdk15");
    let spec = Lang::Go.run_spec(parse_options("version=1.15").unwrap()).unwrap();
    assert_eq!(spec.image_name, "golang1.15");
}

#[test]
fn fixed_recipes() {
    let spec = Lang::Sh.run_spec(Options::default()).unwrap();
    assert_eq!(spec.image_name, "sh");
    assert_eq!(spec.code_path, "/tmp/run.sh");
    assert_eq!(spec.dockerfile, "\nFROM alpine:3.13\nCMD sh /tmp/run.sh\n");
    let spec = Lang::C.run_spec(Options::default()).unwrap();
    assert_eq!(spec.image_name, "c-gcc");
    assert_eq!(
        spec.dockerfile,
        "\nFROM gcc:latest\nCMD sh -c 'gcc -Wall -Wextra main.c -o main && ./main'\n",
    );
}

#[test]
fn names_match_variants() {
    assert_eq!(Lang::Python.name(), "Python");
    assert_eq!(Lang::JavaScript.name(), "JavaScript");
    assert_eq!(Lang::Cpp.name(), "Cpp");
}

#[test]
fn codes_lists_are_found_by_lookup() {
    for lang in all_langs() {
        for code in lang.codes() {
            assert_eq!(get_lang_by_code(code), Some(lang), "{:?} {:?}", lang, code);
        }
    }
}
