//! Speech by a command of the operating system.

use crate::time::Timestamp;
use super::TtsMetrics;
use vstd::prelude::*;
use vstd::string::*;

verus! {

/// An operating system with a speech command.
#[derive(Debug, Clone, Copy, PartialEq, Eq, Structural)]
pub enum Platform {
    MacOs,
    Linux,
    Windows,
}

/// A command to run.
#[derive(Debug)]
pub struct CommandPlan {
    pub program: String,
    pub args: Vec<String>,
    /// Whether the text goes to the command's input.
    pub text_on_stdin: bool,
}

/// The script that speaks what it reads.
pub open spec fn powershell_script() -> Seq<char> {
    "Add-Type -AssemblyName System.Speech; $s=New-Object System.Speech.Synthesis.SpeechSynthesizer; $t=[Console]::In.ReadToEnd(); $s.Speak($t);"@
}

/// The arguments of the speech command.
pub open spec fn command_args(platform: Platform, text: Seq<char>) -> Seq<Seq<char>> {
    match platform {
        Platform::MacOs => seq![text],
        Platform::Linux => seq!["-w"@, text],
        Platform::Windows => seq!["-NoProfile"@, "-Command"@, powershell_script()],
    }
}

/// The command that speaks a text and ends when it is spoken.
pub fn tts_command(platform: Platform, text: &str) -> (r: CommandPlan)
    ensures
        r.program@ == match platform {
            Platform::MacOs => "say"@,
            Platform::Linux => "spd-say"@,
            Platform::Windows => "powershell"@,
        },
        crate::text::spelled(r.args@) == command_args(platform, text@),
        r.text_on_stdin == (platform == Platform::Windows),
{
    let mut args: Vec<String> = Vec::new();
    let (program, text_on_stdin) = match platform {
        Platform::MacOs => {
            args.push(text.to_string());
            ("say", false)
        },
        Platform::Linux => {
            args.push("-w".to_string());
            args.push(text.to_string());
            ("spd-say", false)
        },
        Platform::Windows => {
            args.push("-NoProfile".to_string());
            args.push("-Command".to_string());
            args.push(
                "Add-Type -AssemblyName System.Speech; $s=New-Object System.Speech.Synthesis.SpeechSynthesizer; $t=[Console]::In.ReadToEnd(); $s.Speak($t);".to_string(),
            );
            ("powershell", true)
        },
    };
    proof {
        assert(crate::text::spelled(args@) =~= command_args(platform, text@));
    }
    CommandPlan { program: program.to_string(), args, text_on_stdin }
}

/// The times of a text that a command has spoken: it generates and plays at once.
pub fn command_metrics(start_ts: Timestamp, done_ts: Timestamp) -> (r: TtsMetrics)
    ensures
        r == (TtsMetrics {
            start_ts,
            first_audio_ts: Some(start_ts),
            gen_done_ts: done_ts,
            play_done_ts: done_ts,
            play_done_reported: false,
        }),
{
    TtsMetrics {
        start_ts,
        first_audio_ts: Some(start_ts),
        gen_done_ts: done_ts,
        play_done_ts: done_ts,
        play_done_reported: false,
    }
}

/// The text is the last argument where the command takes one, and goes to its input where not.
pub proof fn law_commands_speak_the_text(text: Seq<char>)
    ensures
        command_args(Platform::MacOs, text).len() == 1,
        command_args(Platform::MacOs, text)[0] == text,
        command_args(Platform::Linux, text).len() == 2,
        command_args(Platform::Linux, text)[0] == "-w"@,
        command_args(Platform::Linux, text)[1] == text,
        command_args(Platform::Windows, text).len() == 3,
        command_args(Platform::Windows, text)[0] == "-NoProfile"@,
        command_args(Platform::Windows, text)[1] == "-Command"@,
        command_args(Platform::Windows, text)[2]
            == "Add-Type -AssemblyName System.Speech; $s=New-Object System.Speech.Synthesis.SpeechSynthesizer; $t=[Console]::In.ReadToEnd(); $s.Speak($t);"@,
{
}

} // verus!
