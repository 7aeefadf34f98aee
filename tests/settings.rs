use watermarker::config::{Config, LogoInfo, OutputInfo};
use watermarker::options::{default_config_path, ConfigError, Options};
use watermarker::position::Position;
use watermarker::resolution::Resolution;

fn cli() -> Options {
    Options {
        config_file: None,
        output_path: None,
        logo_file_path: Some("logo.png".to_string()),
        logo_position: None,
        resolution: None,
        force: false,
        show_options: false,
        inputs: vec!["a.jpg".to_string(), "photos".to_string()],
    }
}

fn file_with_position(position: Option<Position>) -> Config {
    Config {
        logo: Some(LogoInfo { file_path: Some("file-logo.png".to_string()), position }),
        output: None,
    }
}

fn effective_position(cli_position: Option<Position>, file_position: Option<Position>) -> Position {
    let mut opts = cli();
    opts.logo_position = cli_position;
    opts.apply_config(&file_with_position(file_position));
    let settings = opts.validate(true, true, &vec![true, true]).unwrap();
    settings.logo_position()
}

#[test]
fn command_line_position_wins() {
    assert_eq!(effective_position(Some(Position::Center), Some(Position::TopLeft)), Position::Center);
}

#[test]
fn file_position_fills_gap() {
    assert_eq!(effective_position(None, Some(Position::TopLeft)), Position::TopLeft);
}

#[test]
fn default_position_is_bottom_right() {
    assert_eq!(effective_position(None, None), Position::BottomRight);
}

#[test]
fn config_accessors() {
    let config = Config {
        logo: Some(LogoInfo { file_path: Some("l.png".to_string()), position: Some(Position::TopRight) }),
        output: Some(OutputInfo {
            resolution: Some(Resolution::new(640, 480)),
            output_path: Some("out".to_string()),
        }),
    };
    assert_eq!(config.logo_file_path(), Some("l.png".to_string()));
    assert_eq!(config.logo_position(), Some(Position::TopRight));
    let r = config.output_resolution().unwrap();
    assert_eq!((r.width(), r.height()), (640, 480));
    assert_eq!(config.output_path(), Some("out".to_string()));
    let empty = Config { logo: None, output: None };
    assert_eq!(empty.logo_file_path(), None);
    assert_eq!(empty.logo_position(), None);
    assert!(empty.output_resolution().is_none());
    assert_eq!(empty.output_path(), None);
}

#[test]
fn merge_fills_only_absent_entries() {
    let mut opts = cli();
    opts.output_path = Some("cli-out".to_string());
    opts.apply_config(&Config {
        logo: Some(LogoInfo { file_path: Some("file-logo.png".to_string()), position: None }),
        output: Some(OutputInfo {
            resolution: Some(Resolution::new(800, 600)),
            output_path: Some("file-out".to_string()),
        }),
    });
    assert_eq!(opts.logo_file_path, Some("logo.png".to_string()));
    assert_eq!(opts.output_path, Some("cli-out".to_string()));
    let r = opts.resolution.unwrap();
    assert_eq!((r.width(), r.height()), (800, 600));
}

#[test]
fn defaults_of_options() {
    let opts = cli();
    assert_eq!(opts.output_path(), ".");
    assert_eq!(opts.logo_position(), Position::BottomRight);
    let r = opts.resolution();
    assert_eq!((r.width(), r.height()), (1280, 720));
}

#[test]
fn validated_settings() {
    let mut opts = cli();
    opts.force = true;
    opts.config_file = Some("c.toml".to_string());
    let s = opts.validate(true, true, &vec![true, true]).unwrap();
    assert_eq!(s.output_path(), ".");
    assert_eq!(s.logo_file_path(), "logo.png");
    assert_eq!(s.config_file(), &Some("c.toml".to_string()));
    assert_eq!(s.inputs(), &vec!["a.jpg".to_string(), "photos".to_string()]);
    assert!(s.is_force());
    assert!(!s.is_show_options());
    assert_eq!((s.resolution().width(), s.resolution().height()), (1280, 720));
}

#[test]
fn config_path_given_or_default() {
    let mut opts = cli();
    let default = "/home/u/.config/watermarker/config.toml".to_string();
    assert_eq!(opts.config_path(&default), default);
    opts.config_file = Some("mine.toml".to_string());
    assert_eq!(opts.config_path(&default), "mine.toml");
}

#[test]
fn config_file_checks() {
    let mut opts = cli();
    let p = "x.toml".to_string();
    assert_eq!(opts.check_config_path(p.clone(), false, false), Ok(None));
    assert_eq!(opts.check_config_path(p.clone(), true, true), Ok(Some(p.clone())));
    assert_eq!(opts.check_config_path(p.clone(), true, false), Err(ConfigError::ConfigNotFile(p.clone())));
    opts.config_file = Some(p.clone());
    assert_eq!(opts.check_config_path(p.clone(), false, false), Err(ConfigError::ConfigMissing(p.clone())));
}

#[test]
fn output_not_directory() {
    let mut opts = cli();
    opts.output_path = Some("out.txt".to_string());
    let r = opts.validate(false, true, &vec![true, true]);
    assert_eq!(r.err(), Some(ConfigError::OutputNotDirectory("out.txt".to_string())));
}

#[test]
fn output_path_absent_is_not_checked() {
    assert!(cli().validate(false, true, &vec![true, true]).is_ok());
}

#[test]
fn logo_not_file() {
    let r = cli().validate(true, false, &vec![true, true]);
    assert_eq!(r.err(), Some(ConfigError::LogoNotFile("logo.png".to_string())));
}

#[test]
fn logo_not_specified() {
    let mut opts = cli();
    opts.logo_file_path = None;
    opts.apply_config(&Config { logo: None, output: None });
    let r = opts.validate(true, true, &vec![true, true]);
    assert_eq!(r.err(), Some(ConfigError::LogoNotSpecified));
}

#[test]
fn first_missing_input_reported() {
    let mut opts = cli();
    opts.inputs.push("gone".to_string());
    let r = opts.validate(true, true, &vec![true, false, false]);
    assert_eq!(r.err(), Some(ConfigError::InputNotFound("photos".to_string())));
}

#[test]
fn existing_output_skipped_without_force() {
    let s = cli().validate(true, true, &vec![true, true]).unwrap();
    assert!(s.skips(true));
    assert!(!s.skips(false));
    let mut opts = cli();
    opts.force = true;
    let forced = opts.validate(true, true, &vec![true, true]).unwrap();
    assert!(!forced.skips(true));
}

#[test]
fn default_config_path_under_config_dir() {
    assert_eq!(default_config_path("/home/u/.config"), "/home/u/.config/watermarker/config.toml");
    assert_eq!(default_config_path("/home/u/.config/"), "/home/u/.config/watermarker/config.toml");
}
