use gtaurus_server::camera::{
    is_hardware_property, parse_config_settings, parse_control_list, parse_i32, rewrite_config,
    CameraSetting, SettingValue,
};
use gtaurus_server::commands::{
    realtime_byte_arg, serial_baud_arg, serial_connected_message, telnet_connected_message,
    telnet_port_arg, unknown_command_error, Command,
};

fn chars(s: &str) -> Vec<char> {
    s.chars().collect()
}

fn pairs(v: &[CameraSetting]) -> Vec<(String, String)> {
    v.iter()
        .map(|s| {
            let val = match &s.value {
                SettingValue::Number(n) => format!("#{}", n),
                SettingValue::Text(t) => t.clone(),
            };
            (s.name.clone(), val)
        })
        .collect()
}

#[test]
fn command_names() {
    assert_eq!(Command::from_name("stream_local_gcode"), Some(Command::StreamLocalGcode));
    assert_eq!(Command::from_name("get_job_status"), Some(Command::GetJobStatus));
    assert_eq!(Command::from_name("compute_file_hash"), Some(Command::ComputeFileHash));
    assert_eq!(Command::from_name("reboot"), None);
    assert_eq!(Command::from_name(""), None);
    assert_eq!(Command::PauseJob.name(), "pause_job");
    for c in [Command::ListSerialPorts, Command::ResumeAutoConnect, Command::CopyToStorage] {
        assert_eq!(Command::from_name(c.name()), Some(c));
    }
}

#[test]
fn unknown_command_answer() {
    assert_eq!(
        unknown_command_error("reboot"),
        "Command reboot not implemented in standalone server"
    );
}

#[test]
fn argument_defaults() {
    assert_eq!(serial_baud_arg(Some(9600), Some(1)), 9600);
    assert_eq!(serial_baud_arg(None, Some(57600)), 57600);
    assert_eq!(serial_baud_arg(None, None), 115200);
    assert_eq!(serial_baud_arg(Some(4294967297), None), 1);
    assert_eq!(telnet_port_arg(Some(2323), None), 2323);
    assert_eq!(telnet_port_arg(None, Some(65537)), 1);
    assert_eq!(telnet_port_arg(None, None), 23);
    assert_eq!(realtime_byte_arg(Some(24)), 24);
    assert_eq!(realtime_byte_arg(Some(0x13f)), 0x3f);
    assert_eq!(realtime_byte_arg(None), 0);
}

#[test]
fn connection_answers() {
    assert_eq!(serial_connected_message("COM3"), "Connected to COM3");
    assert_eq!(telnet_connected_message("192.168.1.10", 23), "Connected to 192.168.1.10:23");
}

#[test]
fn reads_i32_as_std_does() {
    for s in ["0", "-10", "+7", "2147483647", "-2147483648", "007", "", "-", "+", "1.5", "2147483648",
        "-2147483649", " 1", "1 ", "99999999999999999999", "--1", "0x10", "٣"] {
        assert_eq!(parse_i32(&chars(s)), s.parse::<i32>().ok(), "input {:?}", s);
    }
}

#[test]
fn parses_v4l2_control_list() {
    let out = "                     brightness 0x00980900 (int)    : min=-64 max=64 step=1 default=0 value=-10\n\
                       contrast 0x00980901 (int)    : min=0 max=64 step=1 default=32 value=32\n\
    \n\
                  power_line_frequency 0x00980918 (menu)   : min=0 max=2 default=1 value=1 (50 Hz)\n\
    \t\t\t\t0: Disabled\n\
                     odd 0x1 (int) : min=0 value=value=abc\n\
                     novalue 0x2 (bool) : default=1\n\
    a:b:c\n";
    let s = parse_control_list(out);
    assert_eq!(
        pairs(&s),
        vec![
            ("brightness".to_string(), "#-10".to_string()),
            ("contrast".to_string(), "#32".to_string()),
            ("power_line_frequency".to_string(), "#1".to_string()),
            ("0".to_string(), "#0".to_string()),
            ("odd".to_string(), "abc".to_string()),
            ("novalue".to_string(), "#0".to_string()),
        ]
    );
}

#[test]
fn parses_crowsnest_config() {
    let conf = "# comment\n[cam 1]\nmode: ustreamer\nresolution = 1280x720 \n  max_fps=15\nempty =\n= orphan\nurl = http://a/b?c=d\n";
    let s = parse_config_settings(conf);
    assert_eq!(
        pairs(&s),
        vec![
            ("resolution".to_string(), "1280x720".to_string()),
            ("max_fps".to_string(), "15".to_string()),
            ("empty".to_string(), "".to_string()),
            ("".to_string(), "orphan".to_string()),
            ("url".to_string(), "http://a/b?c=d".to_string()),
        ]
    );
}

#[test]
fn rewrites_config_keys() {
    let conf = "[cam 1]\nresolution = 640x480\nmax_fps: 10\n";
    assert_eq!(
        rewrite_config(conf, "resolution", Some("1920x1080")),
        "[cam 1]\nresolution = 1920x1080\nmax_fps: 10"
    );
    assert_eq!(
        rewrite_config(conf, "max_fps", Some("30")),
        "[cam 1]\nresolution = 640x480\nmax_fps: 10\nmax_fps = 30"
    );
    assert_eq!(rewrite_config("a=1\r\nb=2\r\n", "c", None), "a=1\nb=2");
    assert_eq!(rewrite_config("", "k", Some("v")), "k = v");
}

#[test]
fn hardware_properties() {
    for k in ["brightness", "contrast", "saturation", "hue", "gamma", "gain", "exposure", "zoom"] {
        assert!(is_hardware_property(k));
    }
    assert!(!is_hardware_property("resolution"));
    assert!(!is_hardware_property("Zoom"));
}

#[test]
fn written_setting_reads_back() {
    let conf = "[cam 1]\nresolution = 640x480\r\nresolution_x = 9\n# resolution = old\nmax_fps=10";
    let written = rewrite_config(conf, "resolution", Some("1920x1080"));
    let s = parse_config_settings(&written);
    let last = s.iter().rev().find(|e| e.name == "resolution").unwrap();
    match &last.value {
        SettingValue::Text(t) => assert_eq!(t, "1920x1080"),
        SettingValue::Number(_) => panic!("text expected"),
    }
    let written = rewrite_config("", "device", Some(""));
    let s = parse_config_settings(&written);
    assert_eq!(pairs(&s), vec![("device".to_string(), "".to_string())]);
}
