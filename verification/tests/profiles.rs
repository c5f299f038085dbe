use soundcard_control::command::{Invocation, Launch, ProcessOutput, Step};
use soundcard_control::error::{ControlError, ErrorKind};
use soundcard_control::pipewire::buffer_size::{is_valid_buffer_size, set_buffer_size};
use soundcard_control::pipewire::profile::{
    all_captures, card_section, first_capture, get_active_profile, get_profiles, set_profile,
};
use soundcard_control::pipewire::volume::{
    get_input_volume, get_volume, parse_volume_from_pw_cli_output, set_input_volume, set_volume,
    volume_of_captures,
};

fn ok(stdout: &str) -> Launch {
    Launch::Finished(ProcessOutput {
        success: true,
        stdout: stdout.to_string(),
        stderr: String::new(),
    })
}

fn failed(stderr: &str) -> Launch {
    Launch::Finished(ProcessOutput {
        success: false,
        stdout: String::new(),
        stderr: stderr.to_string(),
    })
}

fn command(program: &str, args: &[&str]) -> Invocation {
    Invocation {
        program: program.to_string(),
        args: args.iter().map(|a| a.to_string()).collect(),
    }
}

fn strings(lines: &[&str]) -> Vec<String> {
    lines.iter().map(|l| l.to_string()).collect()
}

const CARDS: &str = "Card #47
\tName: alsa_card.pci-0000_00_1f.3
\tProfiles:
\t\toutput:analog-stereo: Analog Stereo Output (sinks: 1, sources: 0, priority: 6500, available: yes)
\t\toff: Off (sinks: 0, sources: 0, priority: 0, available: yes)
\tActive Profile: output:analog-stereo
Card #52
\tName: alsa_card.usb-RME_Babyface_Pro
\tProfiles:
\t\toff: Off (sinks: 0, sources: 0, priority: 0, available: yes)
\t\tpro-audio: Pro Audio (sinks: 1, sources: 1, priority: 1, available: yes)
\t\toutput:analog-surround-40: Analog Surround 4.0 Output (sinks: 1, sources: 0, priority: 1200, available: no)
\tActive Profile: pro-audio
Card #60
\tName: bluez
\tActive Profile: a2dp
";

#[test]
fn buffer_size_100_is_refused_before_any_command() {
    let refusal = Step::Done(Err(ControlError {
        kind: ErrorKind::InvalidValue,
        message: "The buffer size must be a power of two between 32 and 8192".to_string(),
    }));
    assert_eq!(set_buffer_size(100, &[]), refusal);
    assert_eq!(set_buffer_size(100, &[ok("")]), refusal);
}

#[test]
fn buffer_size_4096_is_refused_before_any_command() {
    assert_eq!(
        set_buffer_size(4096, &[]),
        Step::Done(Err(ControlError {
            kind: ErrorKind::InvalidValue,
            message: "The buffer size must be a power of two between 32 and 8192".to_string(),
        }))
    );
}

#[test]
fn valid_buffer_sizes_are_the_seven_powers_of_two() {
    let valid: Vec<u32> = (0..=5000).filter(|n| is_valid_buffer_size(*n)).collect();
    assert_eq!(valid, vec![32, 64, 128, 256, 512, 1024, 2048]);
    assert!(!is_valid_buffer_size(0));
    assert!(!is_valid_buffer_size(16));
    assert!(!is_valid_buffer_size(u32::MAX));
    assert!(!is_valid_buffer_size(0x8000_0000));
}

#[test]
fn valid_buffer_size_goes_to_the_audio_server() {
    assert_eq!(
        set_buffer_size(256, &[]),
        Step::Run(command(
            "pw-metadata",
            &["-n", "settings", "0", "clock.force-quantum", "256"]
        ))
    );
    assert_eq!(set_buffer_size(256, &[ok("")]), Step::Done(Ok(())));
    assert_eq!(
        set_buffer_size(256, &[failed("no metadata")]),
        Step::Done(Err(ControlError {
            kind: ErrorKind::CommandRejected,
            message: "no metadata".to_string(),
        }))
    );
    assert_eq!(
        set_buffer_size(256, &[Launch::Failed("not found".to_string())]),
        Step::Done(Err(ControlError {
            kind: ErrorKind::ExecutionFailure,
            message: "Failed to execute pw-metadata: not found".to_string(),
        }))
    );
}

#[test]
fn active_profile_of_the_card_in_the_middle() {
    assert_eq!(get_active_profile("52", &[]), Step::Run(command("pactl", &["list", "cards"])));
    assert_eq!(
        get_active_profile("52", &[ok(CARDS)]),
        Step::Done(Ok("pro-audio".to_string()))
    );
    assert_eq!(
        get_active_profile("47", &[ok(CARDS)]),
        Step::Done(Ok("output:analog-stereo".to_string()))
    );
    assert_eq!(get_active_profile("60", &[ok(CARDS)]), Step::Done(Ok("a2dp".to_string())));
}

#[test]
fn active_profile_of_an_unlisted_card_is_not_found() {
    assert_eq!(
        get_active_profile("99", &[ok(CARDS)]),
        Step::Done(Err(ControlError {
            kind: ErrorKind::NotFound,
            message: "Could not find active profile for card id: 99".to_string(),
        }))
    );
}

#[test]
fn profiles_of_a_card_in_the_order_of_the_listing() {
    assert_eq!(
        get_profiles("52", &[ok(CARDS)]),
        Step::Done(Ok(strings(&["off", "pro-audio", "output:analog-surround-40"])))
    );
    assert_eq!(
        get_profiles("47", &[ok(CARDS)]),
        Step::Done(Ok(strings(&["output:analog-stereo", "off"])))
    );
}

#[test]
fn card_without_profiles_is_not_found() {
    assert_eq!(
        get_profiles("60", &[ok(CARDS)]),
        Step::Done(Err(ControlError {
            kind: ErrorKind::NotFound,
            message: "Could not find profiles for card id: 60".to_string(),
        }))
    );
    assert_eq!(
        get_profiles("60", &[Launch::Failed("x".to_string())]),
        Step::Done(Err(ControlError {
            kind: ErrorKind::ExecutionFailure,
            message: "Failed to execute pactl: x".to_string(),
        }))
    );
}

#[test]
fn card_id_is_taken_as_text() {
    for id in ["(", ".2", "5.", "[0-9]+", "5|4", ""] {
        assert_eq!(
            get_active_profile(id, &[ok(CARDS)]),
            Step::Done(Err(ControlError {
                kind: ErrorKind::NotFound,
                message: format!("Could not find active profile for card id: {}", id),
            }))
        );
    }
    let odd = "Card #5.\n\tActive Profile: a\nCard #52\n\tActive Profile: b\n";
    assert_eq!(get_active_profile("5.", &[ok(odd)]), Step::Done(Ok("a".to_string())));
    assert_eq!(get_active_profile("52", &[ok(odd)]), Step::Done(Ok("b".to_string())));
}

#[test]
fn section_of_another_card_is_not_read() {
    let listing = "Card #42\n\tActive Profile: off\nCard #4\n\tActive Profile: pro-audio\n";
    assert_eq!(get_active_profile("4", &[ok(listing)]), Step::Done(Ok("pro-audio".to_string())));
    assert_eq!(get_active_profile("42", &[ok(listing)]), Step::Done(Ok("off".to_string())));
    assert_eq!(
        get_active_profile("2", &[ok(listing)]),
        Step::Done(Err(ControlError {
            kind: ErrorKind::NotFound,
            message: "Could not find active profile for card id: 2".to_string(),
        }))
    );
    assert_eq!(
        get_profiles("5", &[ok(CARDS)]),
        Step::Done(Err(ControlError {
            kind: ErrorKind::NotFound,
            message: "Could not find profiles for card id: 5".to_string(),
        }))
    );
    assert_eq!(
        get_profiles("2", &[ok(CARDS)]),
        Step::Done(Err(ControlError {
            kind: ErrorKind::NotFound,
            message: "Could not find profiles for card id: 2".to_string(),
        }))
    );
}

#[test]
fn section_runs_from_the_header_of_the_card_to_the_next_header() {
    let lines = strings(&["x", "Card #1", "a", "b", "Card #2", "c", "Card #1", "d"]);
    assert_eq!(card_section(&lines, "1"), strings(&["a", "b"]));
    assert_eq!(card_section(&lines, "2"), strings(&["c"]));
    assert_eq!(card_section(&lines, "3"), Vec::<String>::new());
    assert_eq!(card_section(&lines, ""), Vec::<String>::new());
    let twice = strings(&["Card #1", "a", "Card #1", "b", "Card #12", "c"]);
    assert_eq!(card_section(&twice, "1"), strings(&["a", "b"]));
    assert_eq!(card_section(&twice, "12"), strings(&["c"]));
    let marked = strings(&["Card #1 ", " Card #1", "Card #1", "d", "x Card #2", "e"]);
    assert_eq!(card_section(&marked, "1"), strings(&["d", "x Card #2", "e"]));
    assert_eq!(card_section(&Vec::new(), "1"), Vec::<String>::new());
}

#[test]
fn captures_are_taken_from_group_one() {
    let found = vec![
        None,
        Some(vec![Some("x".to_string())]),
        Some(vec![Some("x".to_string()), None]),
        Some(vec![Some("ab".to_string()), Some("b".to_string())]),
        Some(vec![Some("cd".to_string()), Some("d".to_string()), None]),
    ];
    assert_eq!(first_capture(&found), Some("b".to_string()));
    assert_eq!(all_captures(&found), strings(&["b", "d"]));
    assert_eq!(first_capture(&vec![None]), None);
    assert_eq!(all_captures(&vec![]), Vec::<String>::new());
}

#[test]
fn profile_is_set_with_pactl() {
    assert_eq!(
        set_profile("52", "pro-audio", &[]),
        Step::Run(command("pactl", &["set-card-profile", "52", "pro-audio"]))
    );
    assert_eq!(set_profile("52", "pro-audio", &[ok("")]), Step::Done(Ok(())));
    assert_eq!(
        set_profile("52", "nope", &[failed("Failure: No such entity\n")]),
        Step::Done(Err(ControlError {
            kind: ErrorKind::CommandRejected,
            message: "Failure: No such entity\n".to_string(),
        }))
    );
    assert_eq!(
        set_profile("52", "nope", &[Launch::Failed("gone".to_string())]),
        Step::Done(Err(ControlError {
            kind: ErrorKind::ExecutionFailure,
            message: "Failed to execute pactl: gone".to_string(),
        }))
    );
}

const PARAMS: &str = "  Object: size 1000, type Spa:Pod:Object:Param:Props (262146), id Spa:Enum:ParamId:Props (2)
    Prop: key Spa:Pod:Object:Param:Props:volume (65539), flags 00000000
      Float 0.750000
    Prop: key Spa:Pod:Object:Param:Props:mute (65540), flags 00000000
      Bool false
";

#[test]
fn node_volume_is_the_float_of_the_volume_property() {
    assert_eq!(parse_volume_from_pw_cli_output(PARAMS), Ok("0.750000".to_string()));
    assert_eq!(
        parse_volume_from_pw_cli_output("Prop: key mute"),
        Err(ControlError {
            kind: ErrorKind::ParseFailure,
            message: "Could not parse volume from pw-cli output".to_string(),
        })
    );
    assert_eq!(
        volume_of_captures(&Some(vec![Some("x 1.0".to_string()), Some("1.0".to_string())])),
        Ok("1.0".to_string())
    );
    assert_eq!(volume_of_captures(&None).unwrap_err().kind, ErrorKind::ParseFailure);
}

#[test]
fn node_volume_commands() {
    assert_eq!(
        set_input_volume("30", "0.5", &[]),
        Step::Run(command("pw-cli", &["set-param", "30", "Props", "{\"volume\": 0.5}"]))
    );
    assert_eq!(set_input_volume("30", "0.5", &[ok("")]), Step::Done(Ok(())));
    assert_eq!(
        set_input_volume("30", "0.5", &[failed("Error: unknown node")]),
        Step::Done(Err(ControlError {
            kind: ErrorKind::CommandRejected,
            message: "Failed to set input gain".to_string(),
        }))
    );
    assert_eq!(
        set_input_volume("30", "0.5", &[Launch::Failed("gone".to_string())]),
        Step::Done(Err(ControlError {
            kind: ErrorKind::ExecutionFailure,
            message: "gone".to_string(),
        }))
    );
    assert_eq!(
        get_input_volume("30", &[]),
        Step::Run(command("pw-cli", &["enum-params", "30", "2"]))
    );
    assert_eq!(get_input_volume("30", &[ok(PARAMS)]), Step::Done(Ok("0.750000".to_string())));
    assert_eq!(
        get_input_volume("30", &[failed("Error: unknown node")]),
        Step::Done(Err(ControlError {
            kind: ErrorKind::CommandRejected,
            message: "Error: unknown node".to_string(),
        }))
    );
}

const DUMP: &str = "\tid: 61
*\t\tnode.id = \"30\"
*\t\tport.name = \"capture_AUX0\"
";

#[test]
fn port_volume_resolves_the_node_first() {
    let dump = command("pw-cli", &["info", "all"]);
    assert_eq!(get_volume("capture_AUX0", &[]), Step::Run(dump.clone()));
    assert_eq!(
        get_volume("capture_AUX0", &[ok(DUMP)]),
        Step::Run(command("pw-cli", &["enum-params", "30", "2"]))
    );
    assert_eq!(
        get_volume("capture_AUX0", &[ok(DUMP), ok(PARAMS)]),
        Step::Done(Ok("0.750000".to_string()))
    );
    assert_eq!(
        get_volume("capture_AUX9", &[ok(DUMP)]),
        Step::Done(Err(ControlError {
            kind: ErrorKind::NotFound,
            message: "Could not find node ID for port name: capture_AUX9".to_string(),
        }))
    );
    assert_eq!(set_volume("capture_AUX0", "1", &[]), Step::Run(dump));
    assert_eq!(
        set_volume("capture_AUX0", "1", &[ok(DUMP)]),
        Step::Run(command("pw-cli", &["set-param", "30", "Props", "{\"volume\": 1}"]))
    );
    assert_eq!(set_volume("capture_AUX0", "1", &[ok(DUMP), ok("")]), Step::Done(Ok(())));
    assert_eq!(
        set_volume("capture_AUX0", "1", &[ok(DUMP), failed("x")]),
        Step::Done(Err(ControlError {
            kind: ErrorKind::CommandRejected,
            message: "Failed to set input gain".to_string(),
        }))
    );
}
