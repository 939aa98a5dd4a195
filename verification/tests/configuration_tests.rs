//! Tests for configuration resolution and placeholder substitution.

use splat_render::configuration::{
    replace_placeholders_in_path, BasePathsConfiguration, Configuration, LoggingConfiguration,
    ScreenshotConfiguration,
};

fn base(dir: &str) -> BasePathsConfiguration {
    BasePathsConfiguration { base_data_directory_path: String::from(dir) }
}

#[test]
fn placeholders_map_names_the_base_directory() {
    let map = base("/srv/data").placeholders_map();
    assert_eq!(map.len(), 1);
    assert_eq!(map[0].0, "{BASE_DATA_DIRECTORY}");
    assert_eq!(map[0].1, "/srv/data");
}

#[test]
fn replace_placeholders_substitutes_every_occurrence() {
    let map = base("/srv/data").placeholders_map();
    assert_eq!(
        replace_placeholders_in_path("{BASE_DATA_DIRECTORY}/logs", &map),
        "/srv/data/logs"
    );
    assert_eq!(
        replace_placeholders_in_path("{BASE_DATA_DIRECTORY}/a/{BASE_DATA_DIRECTORY}", &map),
        "/srv/data/a//srv/data"
    );
    assert_eq!(replace_placeholders_in_path("/plain/path", &map), "/plain/path");
    assert_eq!(replace_placeholders_in_path("", &map), "");
}

#[test]
fn replace_placeholders_applies_pairs_in_order() {
    let pairs = vec![
        (String::from("{A}"), String::from("{B}")),
        (String::from("{B}"), String::from("x")),
    ];
    // The first pair's replacement is itself rewritten by the second.
    assert_eq!(replace_placeholders_in_path("{A}-{B}", &pairs), "x-x");
}

#[test]
fn logging_configuration_resolves_its_directory() {
    let context = base("/srv/data");
    let logging = LoggingConfiguration::from_unresolved(
        String::from("info"),
        String::from("debug,hyper=warn"),
        "{BASE_DATA_DIRECTORY}/logs",
        &context,
    );
    assert_eq!(logging.console_output_level_filter, "info");
    assert_eq!(logging.log_file_output_level_filter, "debug,hyper=warn");
    assert_eq!(logging.log_file_output_directory, "/srv/data/logs");
}

#[test]
fn screenshot_configuration_resolves_and_joins() {
    let context = base("/srv/data");
    let screenshot =
        ScreenshotConfiguration::from_unresolved("{BASE_DATA_DIRECTORY}/screenshots", &context);
    assert_eq!(screenshot.screenshot_directory_path, "/srv/data/screenshots");
    assert_eq!(
        screenshot.screenshot_path("shot.png"),
        "/srv/data/screenshots/shot.png"
    );
}

#[test]
fn whole_configuration_resolves() {
    let configuration = Configuration::resolve(
        String::from("/etc/app/configuration.toml"),
        base("/srv/data"),
        String::from("info"),
        String::from("trace"),
        "{BASE_DATA_DIRECTORY}/logs",
        "{BASE_DATA_DIRECTORY}/shots",
    );
    assert_eq!(configuration.file_path, "/etc/app/configuration.toml");
    assert_eq!(configuration.base_paths.base_data_directory_path, "/srv/data");
    assert_eq!(configuration.logging.log_file_output_directory, "/srv/data/logs");
    assert_eq!(configuration.screenshot.screenshot_directory_path, "/srv/data/shots");
}
