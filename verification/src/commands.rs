//! The commands that clients invoke over the WebSocket, and the argument
//! defaults that the dispatcher applies.

use vstd::prelude::*;

use crate::events::{decimal, push_decimal};
use crate::text::{chars_of, push_str, str_eq, string_from_chars};

verus! {

/// A command that a client can invoke.
#[derive(PartialEq, Eq, Structural, Clone, Copy, Debug)]
pub enum Command {
    ListSerialPorts,
    GetConnectionStatus,
    SendGcode,
    SendRealtime,
    ConnectSerial,
    ConnectTelnet,
    Disconnect,
    ResumeAutoConnect,
    EnsureDirExists,
    ListLocalFiles,
    ReadLocalFile,
    SaveLocalFile,
    DeleteLocalFile,
    CopyToStorage,
    GetHomeDir,
    ValidateGcodeFile,
    StreamLocalGcode,
    GetJobStatus,
    PauseJob,
    ResumeJob,
    CancelJob,
    GetCameraSettings,
    SetCameraSettings,
    ParseGcodeFile,
    GenerateSurfacingToolpath,
    SaveCheckpoint,
    LoadCheckpoint,
    GetResumeCheckpointPath,
    ComputeFileHash,
}

/// The name under which a client invokes the command.
pub open spec fn command_name(c: Command) -> Seq<char> {
    match c {
        Command::ListSerialPorts => "list_serial_ports"@,
        Command::GetConnectionStatus => "get_connection_status"@,
        Command::SendGcode => "send_gcode"@,
        Command::SendRealtime => "send_realtime"@,
        Command::ConnectSerial => "connect_serial"@,
        Command::ConnectTelnet => "connect_telnet"@,
        Command::Disconnect => "disconnect"@,
        Command::ResumeAutoConnect => "resume_auto_connect"@,
        Command::EnsureDirExists => "ensure_dir_exists"@,
        Command::ListLocalFiles => "list_local_files"@,
        Command::ReadLocalFile => "read_local_file"@,
        Command::SaveLocalFile => "save_local_file"@,
        Command::DeleteLocalFile => "delete_local_file"@,
        Command::CopyToStorage => "copy_to_storage"@,
        Command::GetHomeDir => "get_home_dir"@,
        Command::ValidateGcodeFile => "validate_gcode_file"@,
        Command::StreamLocalGcode => "stream_local_gcode"@,
        Command::GetJobStatus => "get_job_status"@,
        Command::PauseJob => "pause_job"@,
        Command::ResumeJob => "resume_job"@,
        Command::CancelJob => "cancel_job"@,
        Command::GetCameraSettings => "get_camera_settings"@,
        Command::SetCameraSettings => "set_camera_settings"@,
        Command::ParseGcodeFile => "parse_gcode_file"@,
        Command::GenerateSurfacingToolpath => "generate_surfacing_toolpath"@,
        Command::SaveCheckpoint => "save_checkpoint"@,
        Command::LoadCheckpoint => "load_checkpoint"@,
        Command::GetResumeCheckpointPath => "get_resume_checkpoint_path"@,
        Command::ComputeFileHash => "compute_file_hash"@,
    }
}

/// The command that a client invokes by `name`, if there is one.
pub open spec fn command_named(name: Seq<char>) -> Option<Command> {
    if name == "list_serial_ports"@ {
        Some(Command::ListSerialPorts)
    } else if name == "get_connection_status"@ {
        Some(Command::GetConnectionStatus)
    } else if name == "send_gcode"@ {
        Some(Command::SendGcode)
    } else if name == "send_realtime"@ {
        Some(Command::SendRealtime)
    } else if name == "connect_serial"@ {
        Some(Command::ConnectSerial)
    } else if name == "connect_telnet"@ {
        Some(Command::ConnectTelnet)
    } else if name == "disconnect"@ {
        Some(Command::Disconnect)
    } else if name == "resume_auto_connect"@ {
        Some(Command::ResumeAutoConnect)
    } else if name == "ensure_dir_exists"@ {
        Some(Command::EnsureDirExists)
    } else if name == "list_local_files"@ {
        Some(Command::ListLocalFiles)
    } else if name == "read_local_file"@ {
        Some(Command::ReadLocalFile)
    } else if name == "save_local_file"@ {
        Some(Command::SaveLocalFile)
    } else if name == "delete_local_file"@ {
        Some(Command::DeleteLocalFile)
    } else if name == "copy_to_storage"@ {
        Some(Command::CopyToStorage)
    } else if name == "get_home_dir"@ {
        Some(Command::GetHomeDir)
    } else if name == "validate_gcode_file"@ {
        Some(Command::ValidateGcodeFile)
    } else if name == "stream_local_gcode"@ {
        Some(Command::StreamLocalGcode)
    } else if name == "get_job_status"@ {
        Some(Command::GetJobStatus)
    } else if name == "pause_job"@ {
        Some(Command::PauseJob)
    } else if name == "resume_job"@ {
        Some(Command::ResumeJob)
    } else if name == "cancel_job"@ {
        Some(Command::CancelJob)
    } else if name == "get_camera_settings"@ {
        Some(Command::GetCameraSettings)
    } else if name == "set_camera_settings"@ {
        Some(Command::SetCameraSettings)
    } else if name == "parse_gcode_file"@ {
        Some(Command::ParseGcodeFile)
    } else if name == "generate_surfacing_toolpath"@ {
        Some(Command::GenerateSurfacingToolpath)
    } else if name == "save_checkpoint"@ {
        Some(Command::SaveCheckpoint)
    } else if name == "load_checkpoint"@ {
        Some(Command::LoadCheckpoint)
    } else if name == "get_resume_checkpoint_path"@ {
        Some(Command::GetResumeCheckpointPath)
    } else if name == "compute_file_hash"@ {
        Some(Command::ComputeFileHash)
    } else {
        None
    }
}

impl Command {
    /// The name under which a client invokes the command.
    pub fn name(&self) -> (s: &'static str)
        ensures
            s@ == command_name(*self),
    {
        match self {
            Command::ListSerialPorts => "list_serial_ports",
            Command::GetConnectionStatus => "get_connection_status",
            Command::SendGcode => "send_gcode",
            Command::SendRealtime => "send_realtime",
            Command::ConnectSerial => "connect_serial",
            Command::ConnectTelnet => "connect_telnet",
            Command::Disconnect => "disconnect",
            Command::ResumeAutoConnect => "resume_auto_connect",
            Command::EnsureDirExists => "ensure_dir_exists",
            Command::ListLocalFiles => "list_local_files",
            Command::ReadLocalFile => "read_local_file",
            Command::SaveLocalFile => "save_local_file",
            Command::DeleteLocalFile => "delete_local_file",
            Command::CopyToStorage => "copy_to_storage",
            Command::GetHomeDir => "get_home_dir",
            Command::ValidateGcodeFile => "validate_gcode_file",
            Command::StreamLocalGcode => "stream_local_gcode",
            Command::GetJobStatus => "get_job_status",
            Command::PauseJob => "pause_job",
            Command::ResumeJob => "resume_job",
            Command::CancelJob => "cancel_job",
            Command::GetCameraSettings => "get_camera_settings",
            Command::SetCameraSettings => "set_camera_settings",
            Command::ParseGcodeFile => "parse_gcode_file",
            Command::GenerateSurfacingToolpath => "generate_surfacing_toolpath",
            Command::SaveCheckpoint => "save_checkpoint",
            Command::LoadCheckpoint => "load_checkpoint",
            Command::GetResumeCheckpointPath => "get_resume_checkpoint_path",
            Command::ComputeFileHash => "compute_file_hash",
        }
    }

    /// The command that a client invokes by `name`, if there is one.
    pub fn from_name(name: &str) -> (c: Option<Command>)
        ensures
            c == command_named(name@),
    {
        if str_eq(name, "list_serial_ports") {
            return Some(Command::ListSerialPorts);
        }
        if str_eq(name, "get_connection_status") {
            return Some(Command::GetConnectionStatus);
        }
        if str_eq(name, "send_gcode") {
            return Some(Command::SendGcode);
        }
        if str_eq(name, "send_realtime") {
            return Some(Command::SendRealtime);
        }
        if str_eq(name, "connect_serial") {
            return Some(Command::ConnectSerial);
        }
        if str_eq(name, "connect_telnet") {
            return Some(Command::ConnectTelnet);
        }
        if str_eq(name, "disconnect") {
            return Some(Command::Disconnect);
        }
        if str_eq(name, "resume_auto_connect") {
            return Some(Command::ResumeAutoConnect);
        }
        if str_eq(name, "ensure_dir_exists") {
            return Some(Command::EnsureDirExists);
        }
        if str_eq(name, "list_local_files") {
            return Some(Command::ListLocalFiles);
        }
        if str_eq(name, "read_local_file") {
            return Some(Command::ReadLocalFile);
        }
        if str_eq(name, "save_local_file") {
            return Some(Command::SaveLocalFile);
        }
        if str_eq(name, "delete_local_file") {
            return Some(Command::DeleteLocalFile);
        }
        if str_eq(name, "copy_to_storage") {
            return Some(Command::CopyToStorage);
        }
        if str_eq(name, "get_home_dir") {
            return Some(Command::GetHomeDir);
        }
        if str_eq(name, "validate_gcode_file") {
            return Some(Command::ValidateGcodeFile);
        }
        if str_eq(name, "stream_local_gcode") {
            return Some(Command::StreamLocalGcode);
        }
        if str_eq(name, "get_job_status") {
            return Some(Command::GetJobStatus);
        }
        if str_eq(name, "pause_job") {
            return Some(Command::PauseJob);
        }
        if str_eq(name, "resume_job") {
            return Some(Command::ResumeJob);
        }
        if str_eq(name, "cancel_job") {
            return Some(Command::CancelJob);
        }
        if str_eq(name, "get_camera_settings") {
            return Some(Command::GetCameraSettings);
        }
        if str_eq(name, "set_camera_settings") {
            return Some(Command::SetCameraSettings);
        }
        if str_eq(name, "parse_gcode_file") {
            return Some(Command::ParseGcodeFile);
        }
        if str_eq(name, "generate_surfacing_toolpath") {
            return Some(Command::GenerateSurfacingToolpath);
        }
        if str_eq(name, "save_checkpoint") {
            return Some(Command::SaveCheckpoint);
        }
        if str_eq(name, "load_checkpoint") {
            return Some(Command::LoadCheckpoint);
        }
        if str_eq(name, "get_resume_checkpoint_path") {
            return Some(Command::GetResumeCheckpointPath);
        }
        if str_eq(name, "compute_file_hash") {
            return Some(Command::ComputeFileHash);
        }
        None
    }
}

/// The error that answers a command the server does not know.
pub open spec fn unknown_command_text(cmd: Seq<char>) -> Seq<char> {
    "Command "@ + cmd + " not implemented in standalone server"@
}

/// The error that answers the unknown command `cmd`.
pub fn unknown_command_error(cmd: &str) -> (e: String)
    ensures
        e@ == unknown_command_text(cmd@),
{
    let mut buf = chars_of("Command ");
    push_str(&mut buf, cmd);
    push_str(&mut buf, " not implemented in standalone server");
    string_from_chars(&buf)
}

/// The baud rate of a `connect_serial` request, from its `baud_rate` or
/// `baudRate` argument (115200 when neither is a number), cut to 32 bits.
pub fn serial_baud_arg(baud_rate: Option<u64>, baud_rate_camel: Option<u64>) -> (b: u32)
    ensures
        b == (match baud_rate {
            Some(v) => v,
            None => match baud_rate_camel {
                Some(v) => v,
                None => 115200,
            },
        }) as u32,
{
    let v: u64 = match baud_rate {
        Some(v) => v,
        None => match baud_rate_camel {
            Some(v) => v,
            None => 115200,
        },
    };
    v as u32
}

/// The port of a `connect_telnet` request, from its `ws_port` or `wsPort`
/// argument cut to 16 bits, or 23 when neither is a number.
pub fn telnet_port_arg(ws_port: Option<u64>, ws_port_camel: Option<u64>) -> (p: u16)
    ensures
        p == match ws_port {
            Some(v) => v as u16,
            None => match ws_port_camel {
                Some(v) => v as u16,
                None => 23,
            },
        },
{
    match ws_port {
        Some(v) => v as u16,
        None => match ws_port_camel {
            Some(v) => v as u16,
            None => 23,
        },
    }
}

/// The byte of a `send_realtime` request, cut to 8 bits (0 when the argument
/// is not a number).
pub fn realtime_byte_arg(byte: Option<u64>) -> (b: u8)
    ensures
        b == match byte {
            Some(v) => v as u8,
            None => 0,
        },
{
    match byte {
        Some(v) => v as u8,
        None => 0,
    }
}

/// The answer to a successful serial connection.
pub open spec fn serial_connected_text(port: Seq<char>) -> Seq<char> {
    "Connected to "@ + port
}

/// The answer to a successful telnet connection.
pub open spec fn telnet_connected_text(host: Seq<char>, port: nat) -> Seq<char> {
    "Connected to "@ + host + seq![':'] + decimal(port)
}

/// The answer to a successful serial connection to `port`.
pub fn serial_connected_message(port: &str) -> (m: String)
    ensures
        m@ == serial_connected_text(port@),
{
    let mut buf = chars_of("Connected to ");
    push_str(&mut buf, port);
    string_from_chars(&buf)
}

/// The answer to a successful telnet connection to `host` on `port`.
pub fn telnet_connected_message(host: &str, port: u16) -> (m: String)
    ensures
        m@ == telnet_connected_text(host@, port as nat),
{
    let mut buf = chars_of("Connected to ");
    push_str(&mut buf, host);
    buf.push(':');
    push_decimal(&mut buf, port as usize);
    string_from_chars(&buf)
}

/// Every command is found again by its name.
pub proof fn law_command_names_round_trip(c: Command)
    ensures
        command_named(command_name(c)) == Some(c),
{
    reveal_strlit("list_serial_ports");
    assert("list_serial_ports"@.len() == 17 && "list_serial_ports"@[0] == 'l');
    reveal_strlit("get_connection_status");
    assert("get_connection_status"@.len() == 21 && "get_connection_status"@[0] == 'g');
    reveal_strlit("send_gcode");
    assert("send_gcode"@.len() == 10 && "send_gcode"@[0] == 's');
    reveal_strlit("send_realtime");
    assert("send_realtime"@.len() == 13 && "send_realtime"@[0] == 's');
    reveal_strlit("connect_serial");
    assert("connect_serial"@.len() == 14 && "connect_serial"@[0] == 'c');
    reveal_strlit("connect_telnet");
    assert("connect_telnet"@.len() == 14 && "connect_telnet"@[0] == 'c');
    reveal_strlit("disconnect");
    assert("disconnect"@.len() == 10 && "disconnect"@[0] == 'd');
    reveal_strlit("resume_auto_connect");
    assert("resume_auto_connect"@.len() == 19 && "resume_auto_connect"@[0] == 'r');
    reveal_strlit("ensure_dir_exists");
    assert("ensure_dir_exists"@.len() == 17 && "ensure_dir_exists"@[0] == 'e');
    reveal_strlit("list_local_files");
    assert("list_local_files"@.len() == 16 && "list_local_files"@[0] == 'l');
    reveal_strlit("read_local_file");
    assert("read_local_file"@.len() == 15 && "read_local_file"@[0] == 'r');
    reveal_strlit("save_local_file");
    assert("save_local_file"@.len() == 15 && "save_local_file"@[0] == 's');
    reveal_strlit("delete_local_file");
    assert("delete_local_file"@.len() == 17 && "delete_local_file"@[0] == 'd');
    reveal_strlit("copy_to_storage");
    assert("copy_to_storage"@.len() == 15 && "copy_to_storage"@[0] == 'c');
    reveal_strlit("get_home_dir");
    assert("get_home_dir"@.len() == 12 && "get_home_dir"@[0] == 'g');
    reveal_strlit("validate_gcode_file");
    assert("validate_gcode_file"@.len() == 19 && "validate_gcode_file"@[0] == 'v');
    reveal_strlit("stream_local_gcode");
    assert("stream_local_gcode"@.len() == 18 && "stream_local_gcode"@[0] == 's');
    reveal_strlit("get_job_status");
    assert("get_job_status"@.len() == 14 && "get_job_status"@[0] == 'g');
    reveal_strlit("pause_job");
    assert("pause_job"@.len() == 9 && "pause_job"@[0] == 'p');
    reveal_strlit("resume_job");
    assert("resume_job"@.len() == 10 && "resume_job"@[0] == 'r');
    reveal_strlit("cancel_job");
    assert("cancel_job"@.len() == 10 && "cancel_job"@[0] == 'c');
    reveal_strlit("get_camera_settings");
    assert("get_camera_settings"@.len() == 19 && "get_camera_settings"@[0] == 'g');
    reveal_strlit("set_camera_settings");
    assert("set_camera_settings"@.len() == 19 && "set_camera_settings"@[0] == 's');
    reveal_strlit("parse_gcode_file");
    assert("parse_gcode_file"@.len() == 16 && "parse_gcode_file"@[0] == 'p');
    reveal_strlit("generate_surfacing_toolpath");
    assert("generate_surfacing_toolpath"@.len() == 27 && "generate_surfacing_toolpath"@[0] == 'g');
    reveal_strlit("save_checkpoint");
    assert("save_checkpoint"@.len() == 15 && "save_checkpoint"@[0] == 's');
    reveal_strlit("load_checkpoint");
    assert("load_checkpoint"@.len() == 15 && "load_checkpoint"@[0] == 'l');
    reveal_strlit("get_resume_checkpoint_path");
    assert("get_resume_checkpoint_path"@.len() == 26 && "get_resume_checkpoint_path"@[0] == 'g');
    reveal_strlit("compute_file_hash");
    assert("compute_file_hash"@.len() == 17 && "compute_file_hash"@[0] == 'c');
    assert("connect_serial"@[8] != "connect_telnet"@[8]);
    assert("save_local_file"@[5] != "save_checkpoint"@[5]);
}

/// Each command is invoked by its documented wire name, and that name
/// invokes it: `cancel_job` cancels the job, `resume_job` resumes it, and so
/// on for every command of the API.
pub proof fn law_documented_wire_names()
    ensures
        command_name(Command::ListSerialPorts) == "list_serial_ports"@,
        command_name(Command::GetConnectionStatus) == "get_connection_status"@,
        command_name(Command::SendGcode) == "send_gcode"@,
        command_name(Command::SendRealtime) == "send_realtime"@,
        command_name(Command::ConnectSerial) == "connect_serial"@,
        command_name(Command::ConnectTelnet) == "connect_telnet"@,
        command_name(Command::Disconnect) == "disconnect"@,
        command_name(Command::ResumeAutoConnect) == "resume_auto_connect"@,
        command_name(Command::EnsureDirExists) == "ensure_dir_exists"@,
        command_name(Command::ListLocalFiles) == "list_local_files"@,
        command_name(Command::ReadLocalFile) == "read_local_file"@,
        command_name(Command::SaveLocalFile) == "save_local_file"@,
        command_name(Command::DeleteLocalFile) == "delete_local_file"@,
        command_name(Command::CopyToStorage) == "copy_to_storage"@,
        command_name(Command::GetHomeDir) == "get_home_dir"@,
        command_name(Command::ValidateGcodeFile) == "validate_gcode_file"@,
        command_name(Command::StreamLocalGcode) == "stream_local_gcode"@,
        command_name(Command::GetJobStatus) == "get_job_status"@,
        command_name(Command::PauseJob) == "pause_job"@,
        command_name(Command::ResumeJob) == "resume_job"@,
        command_name(Command::CancelJob) == "cancel_job"@,
        command_name(Command::GetCameraSettings) == "get_camera_settings"@,
        command_name(Command::SetCameraSettings) == "set_camera_settings"@,
        command_name(Command::ParseGcodeFile) == "parse_gcode_file"@,
        command_name(Command::GenerateSurfacingToolpath) == "generate_surfacing_toolpath"@,
        command_name(Command::SaveCheckpoint) == "save_checkpoint"@,
        command_name(Command::LoadCheckpoint) == "load_checkpoint"@,
        command_name(Command::GetResumeCheckpointPath) == "get_resume_checkpoint_path"@,
        command_name(Command::ComputeFileHash) == "compute_file_hash"@,
        command_named("list_serial_ports"@) == Some(Command::ListSerialPorts),
        command_named("get_connection_status"@) == Some(Command::GetConnectionStatus),
        command_named("send_gcode"@) == Some(Command::SendGcode),
        command_named("send_realtime"@) == Some(Command::SendRealtime),
        command_named("connect_serial"@) == Some(Command::ConnectSerial),
        command_named("connect_telnet"@) == Some(Command::ConnectTelnet),
        command_named("disconnect"@) == Some(Command::Disconnect),
        command_named("resume_auto_connect"@) == Some(Command::ResumeAutoConnect),
        command_named("ensure_dir_exists"@) == Some(Command::EnsureDirExists),
        command_named("list_local_files"@) == Some(Command::ListLocalFiles),
        command_named("read_local_file"@) == Some(Command::ReadLocalFile),
        command_named("save_local_file"@) == Some(Command::SaveLocalFile),
        command_named("delete_local_file"@) == Some(Command::DeleteLocalFile),
        command_named("copy_to_storage"@) == Some(Command::CopyToStorage),
        command_named("get_home_dir"@) == Some(Command::GetHomeDir),
        command_named("validate_gcode_file"@) == Some(Command::ValidateGcodeFile),
        command_named("stream_local_gcode"@) == Some(Command::StreamLocalGcode),
        command_named("get_job_status"@) == Some(Command::GetJobStatus),
        command_named("pause_job"@) == Some(Command::PauseJob),
        command_named("resume_job"@) == Some(Command::ResumeJob),
        command_named("cancel_job"@) == Some(Command::CancelJob),
        command_named("get_camera_settings"@) == Some(Command::GetCameraSettings),
        command_named("set_camera_settings"@) == Some(Command::SetCameraSettings),
        command_named("parse_gcode_file"@) == Some(Command::ParseGcodeFile),
        command_named("generate_surfacing_toolpath"@) == Some(Command::GenerateSurfacingToolpath),
        command_named("save_checkpoint"@) == Some(Command::SaveCheckpoint),
        command_named("load_checkpoint"@) == Some(Command::LoadCheckpoint),
        command_named("get_resume_checkpoint_path"@) == Some(Command::GetResumeCheckpointPath),
        command_named("compute_file_hash"@) == Some(Command::ComputeFileHash),
{
    law_command_names_round_trip(Command::ListSerialPorts);
    law_command_names_round_trip(Command::GetConnectionStatus);
    law_command_names_round_trip(Command::SendGcode);
    law_command_names_round_trip(Command::SendRealtime);
    law_command_names_round_trip(Command::ConnectSerial);
    law_command_names_round_trip(Command::ConnectTelnet);
    law_command_names_round_trip(Command::Disconnect);
    law_command_names_round_trip(Command::ResumeAutoConnect);
    law_command_names_round_trip(Command::EnsureDirExists);
    law_command_names_round_trip(Command::ListLocalFiles);
    law_command_names_round_trip(Command::ReadLocalFile);
    law_command_names_round_trip(Command::SaveLocalFile);
    law_command_names_round_trip(Command::DeleteLocalFile);
    law_command_names_round_trip(Command::CopyToStorage);
    law_command_names_round_trip(Command::GetHomeDir);
    law_command_names_round_trip(Command::ValidateGcodeFile);
    law_command_names_round_trip(Command::StreamLocalGcode);
    law_command_names_round_trip(Command::GetJobStatus);
    law_command_names_round_trip(Command::PauseJob);
    law_command_names_round_trip(Command::ResumeJob);
    law_command_names_round_trip(Command::CancelJob);
    law_command_names_round_trip(Command::GetCameraSettings);
    law_command_names_round_trip(Command::SetCameraSettings);
    law_command_names_round_trip(Command::ParseGcodeFile);
    law_command_names_round_trip(Command::GenerateSurfacingToolpath);
    law_command_names_round_trip(Command::SaveCheckpoint);
    law_command_names_round_trip(Command::LoadCheckpoint);
    law_command_names_round_trip(Command::GetResumeCheckpointPath);
    law_command_names_round_trip(Command::ComputeFileHash);
}

/// A name invokes a command only when it is exactly that command's wire
/// name: no other text, however close, invokes anything.
pub proof fn law_lookup_only_by_wire_name(n: Seq<char>)
    ensures
        command_named(n) matches Some(c) ==> command_name(c) == n,
{
}

} // verus!
