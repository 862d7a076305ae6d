use repon::config_report::{existence, ConfigPaths};

#[test]
fn the_report_names_every_path_and_which_files_exist() {
    let paths = ConfigPaths {
        config_file: "/c/config.toml".to_string(),
        config_file_exists: true,
        themes_dir: "/c/themes".to_string(),
        data_dir: "/d".to_string(),
        log_file: "/d/repon.log".to_string(),
        log_file_exists: false,
    };
    assert_eq!(
        paths.report(),
        vec![
            "config file: /c/config.toml (exists)",
            "themes dir:  /c/themes",
            "data dir:    /d",
            "log file:    /d/repon.log (missing)",
        ]
    );
    assert_eq!(existence(true), "exists");
    assert_eq!(existence(false), "missing");
}
