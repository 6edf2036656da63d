use nix_options_doc::collect::{collect_options, ExcludeDir, FileEntry, SourceDir};
use nix_options_doc::error::NixDocError;
use nix_options_doc::replacements::Replacements;
use nix_options_doc::OptionDoc;

fn parts(path: &str) -> Vec<String> {
    let mut out = Vec::new();
    if path.starts_with('/') {
        out.push("/".to_string());
    }
    for part in path.split('/') {
        if !part.is_empty() {
            out.push(part.to_string());
        }
    }
    out
}

fn source_dir(root: &str, files: &[(&str, &str)]) -> SourceDir {
    let mut entries = vec![FileEntry { components: parts(root), is_file: false, content: None }];
    for (name, content) in files {
        entries.push(FileEntry {
            components: parts(&format!("{}/{}", root, name)),
            is_file: true,
            content: Some(content.to_string()),
        });
    }
    SourceDir { path: root.to_string(), components: parts(root), exists: true, entries }
}

fn collect(dir: &SourceDir, exclude: Vec<ExcludeDir>, table: &Replacements) -> Vec<OptionDoc> {
    collect_options(dir, &exclude, table, "nix").unwrap()
}

#[test]
fn test_basic_option_parsing() {
    let content = r#"
{
  options.test.simple = {
    enable = lib.mkEnableOption "Simple test option";
  };
}
"#;
    let dir = source_dir("/tmp/work", &[("flake.nix", content)]);
    let options = collect(&dir, Vec::new(), &Replacements::new());

    assert_eq!(options.len(), 1);
    assert_eq!(options[0].name, "options.test.simple.enable");
    assert_eq!(options[0].nix_type.to_string(), "boolean");
    assert_eq!(options[0].description, Some("Simple test option".to_string()));
    assert_eq!(options[0].default_value, Some("false".to_string()));
}

#[test]
fn test_complex_option_parsing() {
    let content = r#"
{
  options.test.complex = {
    stringOpt = lib.mkOption {
      type = lib.types.str;
      default = "test";
      description = "A string option";
    };

    nested.value = lib.mkOption {
      type = lib.types.int;
      description = "A nested number option";
    };
  };
}
"#;
    let dir = source_dir("/tmp/work", &[("test.nix", content)]);
    let options = collect(&dir, Vec::new(), &Replacements::new());

    assert_eq!(options.len(), 2);

    let string_opt = options.iter().find(|o| o.name == "options.test.complex.stringOpt").unwrap();
    assert_eq!(string_opt.nix_type.to_string(), "lib.types.str");
    assert_eq!(string_opt.description, Some("A string option".to_string()));
    assert_eq!(string_opt.default_value, Some("\"test\"".to_string()));

    let nested_opt =
        options.iter().find(|o| o.name == "options.test.complex.nested.value").unwrap();
    assert_eq!(nested_opt.nix_type.to_string(), "lib.types.int");
    assert_eq!(nested_opt.description, Some("A nested number option".to_string()));
    assert_eq!(nested_opt.default_value, None);
}

#[test]
fn test_hidden_files_exclusion() {
    let content = r#"
{
  options.test.hidden = {
    enable = lib.mkEnableOption "Hidden test option";
  };
}
"#;
    let dir = source_dir("/tmp/work", &[(".hidden.nix", content)]);
    let options = collect(&dir, Vec::new(), &Replacements::new());

    assert_eq!(options.len(), 0);
}

#[test]
fn test_multiline_description_parsing() {
    let content = r#"
{
  options.test.complex = {
    packages = lib.mkOption {
      type = with lib.types; listOf str;
      description = ''
        A multi-line description
        with multiple lines
        and some indentation.
      '';
      default = [];
    };
    values = lib.mkOption {
      type = with lib.types; listOf int;
      description = ''
        A multi-line description
        with multiple lines.

        And some more text across
        another paragraph.
      '';
      default = [1, 2];
    };
  };
}
"#;
    let dir = source_dir("/tmp/work", &[("flake.nix", content)]);
    let options = collect(&dir, Vec::new(), &Replacements::new());

    assert_eq!(options.len(), 2);

    let mut sorted_options = options.clone();
    sorted_options.sort_by(|a, b| a.name.cmp(&b.name));

    assert_eq!(sorted_options[0].name, "options.test.complex.packages");
    assert_eq!(sorted_options[1].name, "options.test.complex.values");

    assert_eq!(sorted_options[0].nix_type.to_string(), "with lib.types; listOf str");
    assert_eq!(sorted_options[1].nix_type.to_string(), "with lib.types; listOf int");

    let desc0 = sorted_options[0].description.as_ref().map(|s| s.trim().to_string());
    let desc1 = sorted_options[1].description.as_ref().map(|s| s.trim().to_string());

    assert_eq!(
        desc0,
        Some("A multi-line description\nwith multiple lines\nand some indentation.".to_string())
    );
    assert_eq!(
        desc1,
        Some("A multi-line description\nwith multiple lines.\n\nAnd some more text across\nanother paragraph.".to_string())
    );
    assert_eq!(sorted_options[0].default_value, Some("[]".to_string()));
    assert_eq!(sorted_options[1].default_value, Some("[1, 2]".to_string()));
}

#[test]
fn test_duplicate_prevention() {
    let content = r#"
{
  options.test = {
    enable = lib.mkEnableOption "Test option";
    enable = lib.mkEnableOption "Duplicate test option";
  };
}
"#;
    let dir = source_dir("/tmp/work", &[("test.nix", content)]);
    let options = collect(&dir, Vec::new(), &Replacements::new());

    let enable_options: Vec<_> =
        options.iter().filter(|o| o.name == "options.test.enable").collect();

    assert_eq!(enable_options.len(), 1, "Should only have one enable option");
    assert_eq!(enable_options[0].description, Some("Duplicate test option".to_string()));
    assert_eq!(enable_options[0].line_number, 5);
}

#[test]
fn test_exclude_dir() {
    let main_content = r#"
{
  options.main = {
    enable = lib.mkEnableOption "Main option";
  };
}
"#;

    let excluded_content = r#"
{
  options.excluded = {
    enable = lib.mkEnableOption "Excluded option";
  };
}
"#;
    let mut dir = source_dir(
        "/tmp/work",
        &[("main.nix", main_content), ("excluded/excluded.nix", excluded_content)],
    );
    dir.entries.push(FileEntry { components: parts("/tmp/work/modules"), is_file: false, content: None });
    dir.entries.push(FileEntry { components: parts("/tmp/work/excluded"), is_file: false, content: None });

    let all_options = collect(&dir, Vec::new(), &Replacements::new());

    assert!(!all_options.is_empty());
    assert!(all_options.iter().any(|o| o.name == "options.main.enable"));
    assert!(all_options.iter().any(|o| o.name == "options.excluded.enable"));

    let exclude_dirs = vec![ExcludeDir { absolute: true, components: parts("/tmp/work/excluded") }];
    let filtered_options = collect(&dir, exclude_dirs, &Replacements::new());

    assert!(filtered_options.iter().any(|o| o.name == "options.main.enable"));
    assert!(!filtered_options.iter().any(|o| o.name == "options.excluded.enable"));

    let relative =
        vec![ExcludeDir { absolute: false, components: vec![".".to_string(), "excluded".to_string()] }];
    let filtered_options = collect(&dir, relative, &Replacements::new());

    assert!(filtered_options.iter().any(|o| o.name == "options.main.enable"));
    assert!(!filtered_options.iter().any(|o| o.name == "options.excluded.enable"));
}

#[test]
fn test_variable_replacements() {
    let content = r#"
{
  options.${namespace}.hardware.bluetooth = {
    enable = lib.mkEnableOption "Enable ${namespace} bluetooth";
  };
  
  options.${system}.networking = {
    enable = lib.mkEnableOption "Enable networking for ${system}";
  };
}
"#;
    let dir = source_dir("/tmp/work", &[("config.nix", content)]);

    let mut replacements = Replacements::new();
    replacements.insert("namespace".to_string(), "snowflake".to_string());
    replacements.insert("system".to_string(), "x86_64-linux".to_string());

    let options = collect(&dir, Vec::new(), &replacements);

    let bluetooth_options: Vec<_> = options.iter().filter(|o| o.name.contains("bluetooth")).collect();
    let networking_options: Vec<_> =
        options.iter().filter(|o| o.name.contains("networking")).collect();

    assert_eq!(bluetooth_options.len(), 1);
    assert_eq!(networking_options.len(), 1);

    if !bluetooth_options.is_empty() {
        let bluetooth_opt = &bluetooth_options[0];
        assert!(bluetooth_opt.name.contains("snowflake"));
        assert!(!bluetooth_opt.name.contains("${namespace}"));
        assert_eq!(bluetooth_opt.name, "options.snowflake.hardware.bluetooth.enable");

        if let Some(desc) = &bluetooth_opt.description {
            assert!(desc.contains("snowflake"));
            assert!(!desc.contains("${namespace}"));
        }
    }

    if !networking_options.is_empty() {
        let networking_opt = &networking_options[0];
        assert!(networking_opt.name.contains("x86_64-linux"));
        assert!(!networking_opt.name.contains("${system}"));

        if let Some(desc) = &networking_opt.description {
            assert!(desc.contains("x86_64-linux"));
            assert!(!desc.contains("${system}"));
        }
    }
}

#[test]
fn test_error_handling() {
    let missing = SourceDir {
        path: "/tmp/work/non-existent".to_string(),
        components: parts("/tmp/work/non-existent"),
        exists: false,
        entries: Vec::new(),
    };
    let result = collect_options(&missing, &Vec::new(), &Replacements::new(), "nix");
    assert!(result.is_err(), "Non-existent paths should return an error");
    match result {
        Err(NixDocError::InvalidPath(message)) => {
            assert_eq!(message, "Directory does not exist: /tmp/work/non-existent")
        }
        _ => panic!("a missing directory is an invalid path"),
    }

    let invalid_content = r#"
{
  options.test = {
    # Missing closing brace
    invalid = lib.mkEnableOption "Invalid option"
  ;
}
"#;
    let dir = source_dir("/tmp/work", &[("invalid.nix", invalid_content)]);
    let result = collect_options(&dir, &Vec::new(), &Replacements::new(), "nix");
    assert!(result.is_ok(), "Processing should continue even with parse errors");

    let valid_content = r#"
{
  options.test.valid = {
    enable = lib.mkEnableOption "Valid option";
  };
}
"#;
    let mut dir =
        source_dir("/tmp/work", &[("invalid.nix", invalid_content), ("valid.nix", valid_content)]);
    let options_with_valid = collect(&dir, Vec::new(), &Replacements::new());
    assert!(
        !options_with_valid.is_empty(),
        "Valid options should be found even when some files have errors"
    );

    dir.entries.push(FileEntry {
        components: parts("/tmp/work/not-readable.nix"),
        is_file: false,
        content: None,
    });
    dir.entries.push(FileEntry {
        components: parts("/tmp/work/unreadable.nix"),
        is_file: true,
        content: None,
    });
    let result = collect_options(&dir, &Vec::new(), &Replacements::new(), "nix");
    assert!(result.is_ok(), "Should handle directories with .nix extensions");
}

#[test]
fn first_file_wins_across_files() {
    let first = "{ options.shared.enable = lib.mkEnableOption \"from the first file\"; }";
    let second = "{\n  options.shared.enable = lib.mkEnableOption \"from the second file\";\n  options.own.enable = lib.mkEnableOption \"own\";\n}";
    let dir = source_dir("/tmp/work", &[("a.nix", first), ("sub/b.nix", second)]);
    let options = collect(&dir, Vec::new(), &Replacements::new());
    let names: Vec<&str> = options.iter().map(|o| o.name.as_str()).collect();
    assert_eq!(names, vec!["options.shared.enable", "options.own.enable"]);
    assert_eq!(options[0].description, Some("from the first file".to_string()));
    assert_eq!(options[0].file_path, "a.nix");
    assert_eq!(options[1].file_path, "sub/b.nix");
    assert_eq!(options[1].line_number, 3);
}

#[test]
fn files_without_text_give_nothing() {
    let mut dir = source_dir("/tmp/work", &[]);
    dir.entries.push(FileEntry { components: parts("/tmp/work/a.nix"), is_file: true, content: None });
    assert!(collect(&dir, Vec::new(), &Replacements::new()).is_empty());
}

#[test]
fn other_extension_can_be_configured() {
    let content = "{ options.a = lib.mkEnableOption \"a\"; }";
    let dir = source_dir("/tmp/work", &[("a.nix", content), ("b.txt", content)]);
    let options = collect_options(&dir, &Vec::new(), &Replacements::new(), "txt").unwrap();
    assert_eq!(options.len(), 1);
    assert_eq!(options[0].file_path, "b.txt");
}

#[test]
fn typical_module_is_read() {
    let content = r#"{ config, lib, pkgs, ... }:

with lib;

let
  cfg = config.services.demo;
in
{
  options = {
    services.demo = {
      enable = mkEnableOption "the demo service";

      port = mkOption {
        type = types.port;
        default = 8080;
        example = literalExpression "9090";
        description = ''
          The port to listen on.

          ::: {.note}
          Ports below 1024 need root.
          :::
        '';
      };

      package = pkgs.lib.mkOption {
        type = types.path;
        default = pkgs.demo;
        defaultText = literalExpression "pkgs.demo";
      };

      extra = mkOverride 10 { };
    };
  };

  config = mkIf cfg.enable {
    systemd.services.demo.enable = true;
  };
}
"#;
    let dir = source_dir("/srv/cfg", &[("modules/demo.nix", content)]);
    let options = collect(&dir, Vec::new(), &Replacements::new());
    let names: Vec<&str> = options.iter().map(|o| o.name.as_str()).collect();
    assert_eq!(
        names,
        vec!["options.services.demo.enable", "options.services.demo.port", "options.services.demo.package"]
    );

    let enable = &options[0];
    assert_eq!(enable.description, Some("the demo service".to_string()));
    assert_eq!(enable.file_path, "modules/demo.nix");
    assert_eq!(enable.line_number, 11);

    let port = &options[1];
    assert_eq!(port.nix_type.to_string(), "types.port");
    assert_eq!(port.default_value, Some("8080".to_string()));
    assert_eq!(port.example, Some("9090".to_string()));
    assert_eq!(
        port.description,
        Some("\nThe port to listen on.\n\n> [!NOTE]  \n> Ports below 1024 need root.\n".to_string())
    );
    assert_eq!(port.line_number, 13);

    let package = &options[2];
    assert_eq!(package.nix_type.to_string(), "path");
    assert_eq!(package.default_value, Some("pkgs.demo".to_string()));
    assert_eq!(package.description, None);
}
