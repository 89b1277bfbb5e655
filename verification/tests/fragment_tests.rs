use kargs::fragment::{parse_file, Fragment};
use kargs::KargsError;

fn strings(items: &[&str]) -> Vec<String> {
    items.iter().map(|s| s.to_string()).collect()
}

/// Verify that kargs are only applied to supported architectures
#[test]
fn test_arch() {
    // no arch specified, kargs ensure that kargs are applied unconditionally
    let file_content = r##"kargs = ["console=tty0", "nosmt"]"##.to_string();
    let parsed_kargs = parse_file(file_content.clone(), "x86_64").unwrap();
    assert_eq!(parsed_kargs, ["console=tty0", "nosmt"]);
    let parsed_kargs = parse_file(file_content.clone(), "aarch64").unwrap();
    assert_eq!(parsed_kargs, ["console=tty0", "nosmt"]);

    // one arch matches and one doesn't, ensure that kargs are only applied for the matching arch
    let file_content = r##"kargs = ["console=tty0", "nosmt"]
arch = ["x86_64"]
"##
    .to_string();
    let parsed_kargs = parse_file(file_content.clone(), "x86_64").unwrap();
    assert_eq!(parsed_kargs, ["console=tty0", "nosmt"]);
    let file_content = r##"kargs = ["console=tty0", "nosmt"]
arch = ["aarch64"]
"##
    .to_string();
    let parsed_kargs = parse_file(file_content.clone(), "x86_64").unwrap();
    assert_eq!(parsed_kargs, [] as [String; 0]);

    // multiple arch specified, ensure that kargs are applied to both archs
    let file_content = r##"kargs = ["console=tty0", "nosmt"]
arch = ["x86_64", "aarch64"]
"##
    .to_string();
    let parsed_kargs = parse_file(file_content.clone(), "x86_64").unwrap();
    assert_eq!(parsed_kargs, ["console=tty0", "nosmt"]);
    let parsed_kargs = parse_file(file_content.clone(), "aarch64").unwrap();
    assert_eq!(parsed_kargs, ["console=tty0", "nosmt"]);
}

#[test]
fn fragment_without_arch_applies_everywhere() {
    let text = "kargs = [\"console=tty0\", \"nosmt\"]\n".to_string();
    assert_eq!(
        parse_file(text.clone(), "x86_64"),
        Ok(strings(&["console=tty0", "nosmt"]))
    );
    assert_eq!(
        parse_file(text.clone(), "riscv64"),
        Ok(strings(&["console=tty0", "nosmt"]))
    );
    assert_eq!(parse_file(text, ""), Ok(strings(&["console=tty0", "nosmt"])));
}

#[test]
fn fragment_with_other_arch_gives_nothing() {
    let text = "kargs = [\"console=tty0\"]\narch = [\"aarch64\"]\n".to_string();
    assert_eq!(parse_file(text, "x86_64"), Ok(Vec::<String>::new()));
}

#[test]
fn fragment_with_single_arch_applies_only_there() {
    let text = "kargs = [\"nosmt\"]\narch = [\"s390x\"]\n".to_string();
    assert_eq!(parse_file(text.clone(), "s390x"), Ok(strings(&["nosmt"])));
    assert_eq!(parse_file(text.clone(), "x86_64"), Ok(Vec::<String>::new()));
    assert_eq!(parse_file(text, "aarch64"), Ok(Vec::<String>::new()));
}

#[test]
fn fragment_with_target_among_others_applies() {
    let text = "kargs = [\"a\", \"b\"]\narch = [\"ppc64le\", \"x86_64\", \"s390x\"]\n".to_string();
    assert_eq!(parse_file(text, "x86_64"), Ok(strings(&["a", "b"])));
}

#[test]
fn arch_is_matched_exactly() {
    let text = "kargs = [\"a\"]\narch = [\"x86\", \"X86_64\", \"x86_64 \"]\n".to_string();
    assert_eq!(parse_file(text, "x86_64"), Ok(Vec::<String>::new()));
}

#[test]
fn arch_listed_twice_applies_twice() {
    let text = "kargs = [\"a\", \"b\"]\narch = [\"x86_64\", \"aarch64\", \"x86_64\"]\n".to_string();
    assert_eq!(
        parse_file(text.clone(), "x86_64"),
        Ok(strings(&["a", "b", "a", "b"]))
    );
    assert_eq!(parse_file(text, "aarch64"), Ok(strings(&["a", "b"])));
}

#[test]
fn empty_arch_list_gives_nothing() {
    let text = "kargs = [\"a\"]\narch = []\n".to_string();
    assert_eq!(parse_file(text, "x86_64"), Ok(Vec::<String>::new()));
}

#[test]
fn empty_kargs_list_is_a_fragment() {
    let text = "kargs = []\n".to_string();
    assert_eq!(parse_file(text, "x86_64"), Ok(Vec::<String>::new()));
}

#[test]
fn repeated_kargs_are_kept() {
    let text = "kargs = [\"a\", \"a\", \"b\", \"a\"]\n".to_string();
    assert_eq!(
        parse_file(text, "x86_64"),
        Ok(strings(&["a", "a", "b", "a"]))
    );
}

#[test]
fn other_keys_are_not_looked_at() {
    let text = "title = \"debug console\"\nkargs = [\"a\"]\nweight = 3\n[extra]\nkargs = 1\n"
        .to_string();
    assert_eq!(parse_file(text, "x86_64"), Ok(strings(&["a"])));
}

#[test]
fn missing_kargs_is_refused() {
    assert_eq!(
        parse_file("arch = [\"x86_64\"]\n".to_string(), "x86_64"),
        Err(KargsError::FragmentParse)
    );
    assert_eq!(
        parse_file(String::new(), "x86_64"),
        Err(KargsError::FragmentParse)
    );
}

#[test]
fn kargs_of_wrong_type_is_refused() {
    for text in [
        "kargs = \"console=tty0\"\n",
        "kargs = 1\n",
        "kargs = [1, 2]\n",
        "kargs = [\"a\", 2]\n",
        "kargs = [[\"a\"]]\n",
        "kargs = true\n",
        "[kargs]\na = \"b\"\n",
        "[[kargs]]\na = \"b\"\n",
    ] {
        assert_eq!(
            parse_file(text.to_string(), "x86_64"),
            Err(KargsError::FragmentParse),
            "{}",
            text
        );
    }
}

#[test]
fn arch_of_wrong_type_is_refused() {
    for text in [
        "kargs = [\"a\"]\narch = \"x86_64\"\n",
        "kargs = [\"a\"]\narch = [1]\n",
        "kargs = [\"a\"]\narch = [\"x86_64\", false]\n",
        "kargs = [\"a\"]\narch = 7\n",
        "kargs = [\"a\"]\n[arch]\nname = \"x86_64\"\n",
    ] {
        assert_eq!(
            parse_file(text.to_string(), "x86_64"),
            Err(KargsError::FragmentParse),
            "{}",
            text
        );
        assert_eq!(
            parse_file(text.to_string(), "aarch64"),
            Err(KargsError::FragmentParse),
            "{}",
            text
        );
    }
}

#[test]
fn text_that_is_not_toml_is_refused() {
    for text in [
        "kargs = [\"a\"",
        "kargs = [\"a\"]\nkargs = [\"b\"]\n",
        "kargs\n",
        "= [\"a\"]\n",
        "kargs = [\"a\"] arch = [\"x86_64\"]\n",
        "{\"kargs\": [\"a\"]}",
    ] {
        assert_eq!(
            parse_file(text.to_string(), "x86_64"),
            Err(KargsError::FragmentParse),
            "{}",
            text
        );
    }
}

#[test]
fn parse_keeps_both_fields() {
    let fragment = Fragment::parse("arch = [\"x86_64\", \"aarch64\"]\nkargs = [\"a\", \"b\"]\n")
        .unwrap();
    assert_eq!(fragment.kargs, strings(&["a", "b"]));
    assert_eq!(fragment.arch, Some(strings(&["x86_64", "aarch64"])));
    let fragment = Fragment::parse("kargs = [\"a\"]\n").unwrap();
    assert_eq!(fragment.kargs, strings(&["a"]));
    assert_eq!(fragment.arch, None);
    assert!(matches!(
        Fragment::parse("kargs = 3\n"),
        Err(KargsError::FragmentParse)
    ));
}

#[test]
fn parse_reads_toml_strings() {
    let fragment =
        Fragment::parse("kargs = ['root=/dev/sda1', \"a\\tb\", \"\"\"x\"\"\", \"\"]\n").unwrap();
    assert_eq!(fragment.kargs, strings(&["root=/dev/sda1", "a\tb", "x", ""]));
}

#[test]
fn from_table_reads_a_built_table() {
    let mut table = toml::Table::new();
    table.insert(
        "kargs".to_string(),
        toml::Value::Array(vec![
            toml::Value::String("quiet".to_string()),
            toml::Value::String("ro".to_string()),
        ]),
    );
    let fragment = Fragment::from_table(&table).unwrap();
    assert_eq!(fragment.kargs, strings(&["quiet", "ro"]));
    assert_eq!(fragment.arch, None);

    table.insert(
        "arch".to_string(),
        toml::Value::Array(vec![toml::Value::String("x86_64".to_string())]),
    );
    let fragment = Fragment::from_table(&table).unwrap();
    assert_eq!(fragment.kargs, strings(&["quiet", "ro"]));
    assert_eq!(fragment.arch, Some(strings(&["x86_64"])));
}

#[test]
fn from_table_refuses_other_shapes() {
    let empty = toml::Table::new();
    assert!(matches!(
        Fragment::from_table(&empty),
        Err(KargsError::FragmentParse)
    ));

    let mut table = toml::Table::new();
    table.insert("kargs".to_string(), toml::Value::Integer(1));
    assert!(matches!(
        Fragment::from_table(&table),
        Err(KargsError::FragmentParse)
    ));

    let mut table = toml::Table::new();
    table.insert(
        "kargs".to_string(),
        toml::Value::Array(vec![
            toml::Value::String("a".to_string()),
            toml::Value::Boolean(true),
        ]),
    );
    assert!(matches!(
        Fragment::from_table(&table),
        Err(KargsError::FragmentParse)
    ));

    let mut table = toml::Table::new();
    table.insert(
        "kargs".to_string(),
        toml::Value::Array(vec![toml::Value::String("a".to_string())]),
    );
    table.insert(
        "arch".to_string(),
        toml::Value::String("x86_64".to_string()),
    );
    assert!(matches!(
        Fragment::from_table(&table),
        Err(KargsError::FragmentParse)
    ));
}

#[test]
fn args_for_follows_the_arch_list() {
    let open = Fragment {
        kargs: strings(&["a", "b"]),
        arch: None,
    };
    assert_eq!(open.args_for("x86_64"), strings(&["a", "b"]));
    assert_eq!(open.kargs, strings(&["a", "b"]));

    let gated = Fragment {
        kargs: strings(&["a", "b"]),
        arch: Some(strings(&["aarch64", "x86_64"])),
    };
    assert_eq!(gated.args_for("x86_64"), strings(&["a", "b"]));
    assert_eq!(gated.args_for("aarch64"), strings(&["a", "b"]));
    assert_eq!(gated.args_for("s390x"), Vec::<String>::new());
    assert_eq!(gated.args_for("x86_64"), strings(&["a", "b"]));
}
