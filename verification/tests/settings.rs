use logo_loader::config::{
    config_place, join_path, Config, ConfigFile, ConfigPlace, UpscaylConfig, CONFIG_FILE_NAME,
    CROP_FOLDER, DEFAULT_MODEL_NAME, DEFAULT_MODEL_PATH, DEFAULT_UPSCALER_PROG, DOWNLOAD,
    DOWNLOAD_FOLDER, JSON_FILE_PATH, LOG_FILE, RESULT_FOLDER, TEMP_JOB_FILE, UPSCALE,
    UPSCALE_FOLDER,
};

fn unset() -> Config {
    Config {
        config_file: None,
        job: None,
        out_dir: None,
        download: None,
        upscale: None,
        upscayl_bin: None,
        upscayl_models: None,
        upscayl_model: None,
    }
}

fn some(text: &str) -> Option<String> {
    Some(text.to_string())
}

#[test]
fn constants_have_their_values() {
    assert_eq!(CONFIG_FILE_NAME, "logo_loader.toml");
    assert_eq!(JSON_FILE_PATH, "job.json");
    assert_eq!(DOWNLOAD_FOLDER, "Logo/Raw");
    assert_eq!(UPSCALE_FOLDER, "Logo/Upscale");
    assert_eq!(LOG_FILE, "logo.log");
    assert_eq!(RESULT_FOLDER, "Logo/Result");
    assert_eq!(CROP_FOLDER, "Logo/Crop");
    assert_eq!(TEMP_JOB_FILE, "job.json");
    assert!(DOWNLOAD);
    assert!(UPSCALE);
    assert_eq!(DEFAULT_UPSCALER_PROG, "/Applications/Upscayl.app/Contents/Resources/bin/upscayl-bin");
    assert_eq!(DEFAULT_MODEL_PATH, "/Applications/Upscayl.app/Contents/Resources/models");
    assert_eq!(DEFAULT_MODEL_NAME, "upscayl-standard-4x");
}

#[test]
fn unset_settings_stand_for_their_defaults() {
    let config = unset();
    assert_eq!(config.job(), "job.json");
    assert_eq!(config.out_dir(), ".");
    assert!(config.download());
    assert!(config.upscale());
    assert_eq!(config.upscayl_bin(), DEFAULT_UPSCALER_PROG);
    assert_eq!(config.upscayl_models(), DEFAULT_MODEL_PATH);
    assert_eq!(config.upscayl_model(), DEFAULT_MODEL_NAME);
    assert_eq!(config.download_folder(), "./Logo/Raw");
    assert_eq!(config.upscale_folder(), "./Logo/Upscale");
    assert_eq!(config.result_folder(), "./Logo/Result");
    assert_eq!(config.crop_folder(), "./Logo/Crop");
    assert_eq!(config.log_file(), "./logo.log");
    assert_eq!(config.temp_job_file(), "./job.json");
}

#[test]
fn set_settings_are_given_back() {
    let config = Config {
        config_file: some("x.toml"),
        job: some("jobs/list.json"),
        out_dir: some("/data/out/"),
        download: Some(false),
        upscale: Some(false),
        upscayl_bin: some("/bin/up"),
        upscayl_models: some("/m"),
        upscayl_model: some("fast"),
    };
    assert_eq!(config.job(), "jobs/list.json");
    assert_eq!(config.out_dir(), "/data/out/");
    assert!(!config.download());
    assert!(!config.upscale());
    assert_eq!(config.upscayl_bin(), "/bin/up");
    assert_eq!(config.upscayl_models(), "/m");
    assert_eq!(config.upscayl_model(), "fast");
    assert_eq!(
        config.all_folders(),
        vec![
            "/data/out/Logo/Raw",
            "/data/out/Logo/Upscale",
            "/data/out/Logo/Result",
            "/data/out/Logo/Crop"
        ]
    );
}

#[test]
fn paths_are_joined_with_one_separator() {
    assert_eq!(join_path("out", "Logo/Raw"), "out/Logo/Raw");
    assert_eq!(join_path("out/", "Logo/Raw"), "out/Logo/Raw");
    assert_eq!(join_path("", "Logo/Raw"), "Logo/Raw");
    assert_eq!(join_path("/", "x"), "/x");
    assert_eq!(join_path("папка", "x"), "папка/x");
    assert_eq!(
        std::path::Path::new("out").join("Logo/Raw").to_str().unwrap(),
        join_path("out", "Logo/Raw")
    );
}

#[test]
fn command_line_comes_before_file_before_defaults() {
    let cli = Config { job: some("cli.json"), upscale: Some(false), ..unset() };
    let file = ConfigFile {
        job: some("file.json"),
        out_dir: some("from_file"),
        download: Some(false),
        upscale: Some(true),
        upscayl: Some(UpscaylConfig { bin: some("/file/bin"), models: None, model: some("m2") }),
    };
    let merged = cli.load_from_file(Some(file));
    assert_eq!(merged.job, some("cli.json"));
    assert_eq!(merged.out_dir, some("from_file"));
    assert_eq!(merged.download, Some(false));
    assert_eq!(merged.upscale, Some(false));
    assert_eq!(merged.upscayl_bin, some("/file/bin"));
    assert_eq!(merged.upscayl_models, some(DEFAULT_MODEL_PATH));
    assert_eq!(merged.upscayl_model, some("m2"));
    assert_eq!(merged.config_file, None);
}

#[test]
fn without_a_file_the_defaults_fill_in() {
    let cli = Config { config_file: some("none.toml"), out_dir: some("o"), ..unset() };
    let merged = Config::get(cli, None);
    assert_eq!(merged.config_file, some("none.toml"));
    assert_eq!(merged.job, some("job.json"));
    assert_eq!(merged.out_dir, some("o"));
    assert_eq!(merged.download, Some(true));
    assert_eq!(merged.upscale, Some(true));
    assert_eq!(merged.upscayl_bin, some(DEFAULT_UPSCALER_PROG));
    assert_eq!(merged.upscayl_models, some(DEFAULT_MODEL_PATH));
    assert_eq!(merged.upscayl_model, some(DEFAULT_MODEL_NAME));
    let file = ConfigFile { job: None, out_dir: None, download: None, upscale: None, upscayl: None };
    let merged = Config::get(unset(), Some(file));
    assert_eq!(merged.out_dir, some("."));
}

#[test]
fn settings_file_is_looked_for_in_order() {
    assert_eq!(config_place(true, true, true, true), ConfigPlace::Named);
    assert_eq!(config_place(true, false, false, false), ConfigPlace::Named);
    assert_eq!(config_place(false, true, true, true), ConfigPlace::Current);
    assert_eq!(config_place(false, false, true, true), ConfigPlace::Home);
    assert_eq!(config_place(false, false, true, false), ConfigPlace::Current);
    assert_eq!(config_place(false, false, false, true), ConfigPlace::Current);
    assert_eq!(config_place(false, false, false, false), ConfigPlace::Current);
}
