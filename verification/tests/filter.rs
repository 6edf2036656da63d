use nix_options_doc::filter::filter_options;
use nix_options_doc::types::NixType;
use nix_options_doc::{Cli, FilterOptions, GitOptions, IoOptions, OptionDoc, OutputFormat, UtilityOptions};

fn plain_cli() -> Cli {
    Cli {
        io: IoOptions {
            path: ".".to_string(),
            out: "stdout".to_string(),
            format: OutputFormat::Markdown,
            sort: false,
            out_prefix: None,
        },
        git: GitOptions { branch: None, depth: 1 },
        filter: FilterOptions {
            filter_by_prefix: None,
            filter_by_type: None,
            search: None,
            has_default: false,
            has_description: false,
            replace: Vec::new(),
            strip_prefix: None,
        },
        util: UtilityOptions { exclude_dir: Vec::new(), follow_symlinks: false, progress: false },
    }
}

fn option(name: &str, kind: &str, description: Option<&str>, default: Option<&str>) -> OptionDoc {
    OptionDoc {
        name: name.to_string(),
        description: description.map(|d| d.to_string()),
        nix_type: NixType::from_nix_str(kind),
        default_value: default.map(|d| d.to_string()),
        example: None,
        file_path: "modules/a.nix".to_string(),
        line_number: 3,
    }
}

fn sample() -> Vec<OptionDoc> {
    vec![
        option("options.services.nginx.enable", "types.bool", Some("Whether to run nginx"), Some("false")),
        option("options.services.nginx.port", "types.int", None, Some("80")),
        option("options.programs.git.name", "types.str", Some("The user name"), None),
    ]
}

fn names(options: &[OptionDoc]) -> Vec<&str> {
    options.iter().map(|o| o.name.as_str()).collect()
}

#[test]
fn no_filter_keeps_everything() {
    let shown = filter_options(&sample(), &plain_cli());
    assert_eq!(names(&shown), names(&sample()));
    assert_eq!(shown[0].file_path, "modules/a.nix");
}

#[test]
fn prefix_filter_keeps_names_that_begin_with_it() {
    let mut cli = plain_cli();
    cli.filter.filter_by_prefix = Some("options.services".to_string());
    let shown = filter_options(&sample(), &cli);
    assert_eq!(names(&shown), vec!["options.services.nginx.enable", "options.services.nginx.port"]);
}

#[test]
fn type_filter_ignores_case() {
    let mut cli = plain_cli();
    cli.filter.filter_by_type = Some("BOOL".to_string());
    let shown = filter_options(&sample(), &cli);
    assert_eq!(names(&shown), vec!["options.services.nginx.enable"]);
}

#[test]
fn search_looks_at_names_and_descriptions() {
    let mut cli = plain_cli();
    cli.filter.search = Some("ng.nx|user".to_string());
    let shown = filter_options(&sample(), &cli);
    assert_eq!(names(&shown).len(), 3);
    cli.filter.search = Some("^The".to_string());
    let shown = filter_options(&sample(), &cli);
    assert_eq!(names(&shown), vec!["options.programs.git.name"]);
}

#[test]
fn search_with_a_broken_pattern_filters_nothing() {
    let mut cli = plain_cli();
    cli.filter.search = Some("(".to_string());
    let shown = filter_options(&sample(), &cli);
    assert_eq!(names(&shown).len(), 3);
}

#[test]
fn default_and_description_filters() {
    let mut cli = plain_cli();
    cli.filter.has_default = true;
    assert_eq!(
        names(&filter_options(&sample(), &cli)),
        vec!["options.services.nginx.enable", "options.services.nginx.port"]
    );
    cli.filter.has_description = true;
    assert_eq!(names(&filter_options(&sample(), &cli)), vec!["options.services.nginx.enable"]);
}

#[test]
fn strip_prefix_forms() {
    let mut cli = plain_cli();
    cli.filter.strip_prefix = Some(String::new());
    assert_eq!(
        names(&filter_options(&sample(), &cli)),
        vec!["services.nginx.enable", "services.nginx.port", "programs.git.name"]
    );
    cli.filter.strip_prefix = Some("options.services".to_string());
    assert_eq!(
        names(&filter_options(&sample(), &cli)),
        vec!["nginx.enable", "nginx.port", "options.programs.git.name"]
    );
    cli.filter.strip_prefix = Some("programs".to_string());
    assert_eq!(
        names(&filter_options(&sample(), &cli)),
        vec!["options.services.nginx.enable", "options.services.nginx.port", "git.name"]
    );
    cli.filter.strip_prefix = Some("options.services.".to_string());
    assert_eq!(names(&filter_options(&sample(), &cli))[0], "nginx.enable");
}

#[test]
fn out_prefix_goes_before_the_path() {
    let mut cli = plain_cli();
    cli.io.out_prefix = Some("https://example.org/repo/".to_string());
    let shown = filter_options(&sample(), &cli);
    assert_eq!(shown[0].file_path, "https://example.org/repo/modules/a.nix");
    cli.io.out_prefix = Some("src".to_string());
    let shown = filter_options(&sample(), &cli);
    assert_eq!(shown[0].file_path, "src/modules/a.nix");
}
