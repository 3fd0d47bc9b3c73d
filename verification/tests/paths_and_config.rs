use gtaurus_server::checkpoint::{
    checkpoint_data_arg, checkpoint_dir, checkpoint_path_arg, checkpoint_save_path,
    checkpoint_saved_message, get_resume_checkpoint_path, hash_source_arg, resume_file_name,
    resume_source_arg, ModalState,
};
use gtaurus_server::config::{auto_connect_target, select_port, should_auto_connect, ServerConfig};
use gtaurus_server::paths::{
    get_resolved_path, home_dir, home_var_name, local_file_target, storage_target,
};

#[test]
fn resume_checkpoint_path_sits_beside_the_file() {
    assert_eq!(get_resume_checkpoint_path("/jobs/part.nc"), "/jobs/part.resume.json");
    assert_eq!(get_resume_checkpoint_path("part.nc"), "part.resume.json");
    assert_eq!(get_resume_checkpoint_path("/jobs/archive.tar.gz"), "/jobs/archive.tar.resume.json");
    assert_eq!(get_resume_checkpoint_path(""), "./checkpoint.resume.json");
    assert_eq!(get_resume_checkpoint_path("/"), "./checkpoint.resume.json");
}

#[test]
fn resume_file_name_and_dir() {
    assert_eq!(resume_file_name(Some("part")), "part.resume.json");
    assert_eq!(resume_file_name(None), "checkpoint.resume.json");
    assert_eq!(checkpoint_dir(None), ".");
    assert_eq!(checkpoint_dir(Some("/a".to_string())), "/a");
}

#[test]
fn checkpoint_save_path_defaults_to_resume_path() {
    assert_eq!(checkpoint_save_path("/jobs/part.nc", ""), "/jobs/part.resume.json");
    assert_eq!(checkpoint_save_path("/jobs/part.nc", "/tmp/x.json"), "/tmp/x.json");
}

#[test]
fn modal_state_holds_its_fields() {
    let m = ModalState {
        units: "G21".to_string(),
        distance_mode: "G90".to_string(),
        plane: "G17".to_string(),
        motion_mode: "G1".to_string(),
        feed_mode: "G94".to_string(),
    };
    assert_eq!(m.units, "G21");
    assert_eq!(m.feed_mode, "G94");
}

#[test]
fn resolved_paths_on_unix_host() {
    let home = Some("/home/cnc".to_string());
    assert_eq!(get_resolved_path("", false, home.clone()), "/home/cnc/gcode_files");
    assert_eq!(get_resolved_path("C:/jobs", false, home.clone()), "/home/cnc/gcode_files");
    assert_eq!(get_resolved_path("jobs\\a", false, home.clone()), "/home/cnc/gcode_files");
    assert_eq!(get_resolved_path("/srv/jobs", false, home.clone()), "/srv/jobs");
    assert_eq!(get_resolved_path("relative/dir", false, home), "relative/dir");
    assert_eq!(get_resolved_path("", false, None), "/tmp/gcode_files");
}

#[test]
fn resolved_paths_on_windows_host() {
    assert_eq!(get_resolved_path("C:/jobs", true, None), "C:/jobs");
    assert_eq!(get_resolved_path("\\\\server\\share", true, None), "\\\\server\\share");
}

#[test]
fn home_directory_defaults() {
    assert_eq!(home_var_name(false), "HOME");
    assert_eq!(home_var_name(true), "USERPROFILE");
    assert_eq!(home_dir(false, None), "/tmp");
    assert_eq!(home_dir(true, None), "C:/");
    assert_eq!(home_dir(false, Some("/root".to_string())), "/root");
}

#[test]
fn default_server_config() {
    let c = ServerConfig::default();
    assert_eq!(c.port, 9001);
    assert!(c.auto_connect);
    assert_eq!(c.default_serial_port, None);
    assert_eq!(c.default_baud_rate, Some(115200));
    assert_eq!(c.http_port, Some(8080));
    assert_eq!(c.web_root.as_deref(), Some("./public"));
    assert_eq!(c.baud_rate(), 115200);
    assert_eq!(c.dashboard_port(), 8080);
    assert_eq!(c.dashboard_root(), "./public");
}

#[test]
fn config_fallbacks() {
    let c = ServerConfig {
        port: 1,
        auto_connect: false,
        default_serial_port: None,
        default_baud_rate: None,
        http_port: None,
        web_root: None,
    };
    assert_eq!(c.baud_rate(), 115200);
    assert_eq!(c.dashboard_port(), 8080);
    assert_eq!(c.dashboard_root(), "./public");
}

#[test]
fn auto_connect_decisions() {
    assert!(should_auto_connect("Disconnected", false));
    assert!(!should_auto_connect("Disconnected", true));
    assert!(!should_auto_connect("Serial: /dev/ttyUSB0", false));
    let ports = Some(vec!["/dev/ttyUSB0".to_string(), "/dev/ttyUSB1".to_string()]);
    assert_eq!(select_port(&None, &ports), Some("/dev/ttyUSB0".to_string()));
    assert_eq!(select_port(&Some("/dev/ttyACM0".to_string()), &ports), Some("/dev/ttyACM0".to_string()));
    assert_eq!(select_port(&None, &Some(vec![])), None);
    assert_eq!(select_port(&None, &None), None);

    let mut c = ServerConfig::default();
    assert_eq!(
        auto_connect_target("Disconnected", false, &c, &ports),
        Some(("/dev/ttyUSB0".to_string(), 115200))
    );
    assert_eq!(auto_connect_target("Serial: COM3", false, &c, &ports), None);
    assert_eq!(auto_connect_target("Disconnected", true, &c, &ports), None);
    c.default_serial_port = Some("COM7".to_string());
    c.default_baud_rate = Some(250000);
    assert_eq!(
        auto_connect_target("Disconnected", false, &c, &None),
        Some(("COM7".to_string(), 250000))
    );
}

#[test]
fn uploads_stay_in_their_directory() {
    assert_eq!(local_file_target("/home/cnc/gcode_files", "part.nc", false), Ok("/home/cnc/gcode_files/part.nc".to_string()));
    assert_eq!(local_file_target("/d", ".hidden", false), Ok("/d/.hidden".to_string()));
    assert_eq!(local_file_target("/d", "sub/x.nc", false), Ok("/d/sub/x.nc".to_string()));
    assert_eq!(local_file_target("/d", "a:b", false), Ok("/d/a:b".to_string()));
    assert_eq!(local_file_target("/d", "C:x.nc", false), Ok("/d/C:x.nc".to_string()));
    assert_eq!(local_file_target("/d", "..x.nc", false), Ok("/d/..x.nc".to_string()));
    assert_eq!(local_file_target("/d", "x../y", false), Ok("/d/x../y".to_string()));
    assert_eq!(local_file_target("/d", "..\\x.nc", false), Ok("/d/..\\x.nc".to_string()));
    for bad in ["..", "../x.nc", "a/../../x.nc", "a/..", "/etc/passwd"] {
        assert_eq!(local_file_target("/d", bad, false), Err("Invalid filename".to_string()), "name {:?}", bad);
        assert_eq!(local_file_target("/d", bad, true), Err("Invalid filename".to_string()), "name {:?}", bad);
    }
    for bad in ["..\\x.nc", "a\\..", "\\\\server\\share", "C:x.nc", "z:\\x.nc"] {
        assert_eq!(local_file_target("/d", bad, true), Err("Invalid filename".to_string()), "name {:?}", bad);
    }
    for good in ["part.nc", "sub\\x.nc", "a.b:c", "..x"] {
        assert!(local_file_target("/d", good, true).is_ok(), "name {:?}", good);
    }
}

#[test]
fn storage_target_takes_the_source_file_name() {
    assert_eq!(storage_target("/media/usb/part.nc", "/home/cnc/gcode_files"), Ok("/home/cnc/gcode_files/part.nc".to_string()));
    assert_eq!(storage_target("part.nc", "/d"), Ok("/d/part.nc".to_string()));
    assert_eq!(storage_target("/media/usb/dir/", "/d"), Ok("/d/dir".to_string()));
    for bad in ["", "/", "/media/..", ".."] {
        assert_eq!(storage_target(bad, "/d"), Err("Invalid filename".to_string()), "source {:?}", bad);
    }
}

#[test]
fn checkpoint_arguments() {
    assert_eq!(checkpoint_path_arg(Some("/a.json"), Some("/b"), None), Ok("/a.json".to_string()));
    assert_eq!(checkpoint_path_arg(None, None, Some("/c.json")), Ok("/c.json".to_string()));
    assert_eq!(checkpoint_path_arg(None, Some(""), Some("/c.json")), Err("No checkpoint path provided".to_string()));
    assert_eq!(checkpoint_path_arg(None, None, None), Err("No checkpoint path provided".to_string()));
    assert_eq!(resume_source_arg(None, Some("/j/p.nc")), Ok("/j/p.nc".to_string()));
    assert_eq!(resume_source_arg(None, None), Err("No G-code path provided".to_string()));
    assert_eq!(hash_source_arg(Some("x.nc"), Some("y.nc")), Ok("x.nc".to_string()));
    assert_eq!(hash_source_arg(Some(""), None), Err("No file path provided".to_string()));
    assert_eq!(checkpoint_data_arg(Some(5u8)), Ok(5u8));
    assert_eq!(checkpoint_data_arg::<u8>(None), Err("No checkpoint data provided".to_string()));
    assert_eq!(checkpoint_saved_message("ck-7"), "Checkpoint saved: ck-7");
}
