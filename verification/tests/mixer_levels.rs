use soundcard_control::alsa::general::{parse_value_from_amixer_output, value_of_captures};
use soundcard_control::alsa::input_gain::{get_input_gain, set_input_gain};
use soundcard_control::alsa::routing::{get_routing_volume, set_routing_volume};
use soundcard_control::alsa::sends::{get_channel_send_level, set_channel_send_level};
use soundcard_control::alsa::volume::{
    clamp_volume, format_percent, get_volume, parse_volume_from_amixer_output, set_volume,
    volume_of_captures,
};
use soundcard_control::command::{Invocation, Launch, ProcessOutput, Step};
use soundcard_control::error::{ControlError, ErrorKind};

fn ok(stdout: &str) -> Launch {
    Launch::Finished(ProcessOutput {
        success: true,
        stdout: stdout.to_string(),
        stderr: String::new(),
    })
}

fn rejected(stderr: &str) -> Launch {
    Launch::Finished(ProcessOutput {
        success: false,
        stdout: "Mono: Playback 5 [50%]".to_string(),
        stderr: stderr.to_string(),
    })
}

fn amixer(args: &[&str]) -> Invocation {
    Invocation {
        program: "amixer".to_string(),
        args: args.iter().map(|a| a.to_string()).collect(),
    }
}

const GAIN: &str = "Simple mixer control 'Mic-AN1 Gain',0
  Capabilities: volume volume-joined
  Playback channels: Mono
  Capture channels: Mono
  Limits: 0 - 65
  Mono: 12 [18%]
";

const PCM: &str = "Simple mixer control 'PCM-AN1-PH3',0
  Capabilities: pvolume pvolume-joined
  Playback channels: Mono
  Limits: Playback 0 - 65536
  Mono: Playback 32768 [50%] [-6.02dB]
";

#[test]
fn clamp_keeps_what_is_in_range_and_cuts_the_rest() {
    assert_eq!(clamp_volume(-1), 0);
    assert_eq!(clamp_volume(0), 0);
    assert_eq!(clamp_volume(37), 37);
    assert_eq!(clamp_volume(100), 100);
    assert_eq!(clamp_volume(101), 100);
    assert_eq!(clamp_volume(i32::MIN), 0);
    assert_eq!(clamp_volume(i32::MAX), 100);
}

#[test]
fn clamp_is_idempotent_on_samples() {
    for v in [-5, 0, 1, 50, 100, 250, i32::MIN, i32::MAX] {
        let once = clamp_volume(v);
        assert!((0..=100).contains(&once));
        assert_eq!(clamp_volume(once), once);
    }
}

#[test]
fn percent_round_trips_through_the_parser() {
    for n in 0..=100 {
        let text = format_percent(clamp_volume(n));
        assert_eq!(text, format!("{}%", n));
        assert_eq!(parse_volume_from_amixer_output(&text), Ok(n));
    }
}

#[test]
fn value_parser_reads_the_native_level() {
    assert_eq!(parse_value_from_amixer_output(GAIN), Ok(12));
    assert_eq!(parse_value_from_amixer_output(PCM), Ok(32768));
}

#[test]
fn value_parser_wants_the_line_at_the_start_with_two_spaces() {
    let e = parse_value_from_amixer_output("x  Mono: 12\n Mono: 13\n").unwrap_err();
    assert_eq!(
        e,
        ControlError {
            kind: ErrorKind::ParseFailure,
            message: "Could not parse volume from amixer output".to_string(),
        }
    );
}

#[test]
fn value_too_large_is_a_parse_failure() {
    let e = parse_value_from_amixer_output("  Mono: 99999999999\n").unwrap_err();
    assert_eq!(e.kind, ErrorKind::ParseFailure);
    assert_eq!(e.message, "Failed to parse volume as integer: 99999999999");
    assert_eq!(parse_value_from_amixer_output("  Mono: 2147483647\n"), Ok(i32::MAX));
    assert_eq!(
        parse_value_from_amixer_output("  Mono: 2147483648\n").unwrap_err().kind,
        ErrorKind::ParseFailure
    );
    assert_eq!(parse_value_from_amixer_output("  Mono: 0000000000000000042\n"), Ok(42));
}

#[test]
fn percent_parser_reads_the_first_percentage() {
    assert_eq!(parse_volume_from_amixer_output(PCM), Ok(50));
    assert_eq!(parse_volume_from_amixer_output("a 7% b 9%"), Ok(7));
    let e = parse_volume_from_amixer_output("no percentage here").unwrap_err();
    assert_eq!(e.kind, ErrorKind::ParseFailure);
    assert_eq!(e.message, "Could not parse volume from amixer output");
}

#[test]
fn numbers_are_read_from_the_captures_that_are_handed_in() {
    let found = Some(vec![Some("Mono: 12".to_string()), None, Some("12".to_string())]);
    assert_eq!(value_of_captures(&found), Ok(12));
    let found = Some(vec![Some("55%".to_string()), Some("55".to_string())]);
    assert_eq!(volume_of_captures(&found), Ok(55));
    assert_eq!(value_of_captures(&found), Ok(55));
    let signed = Some(vec![Some("x".to_string()), Some("-7".to_string())]);
    assert_eq!(volume_of_captures(&signed), Ok(-7));
    let plus = Some(vec![Some("x".to_string()), Some("+7".to_string())]);
    assert_eq!(volume_of_captures(&plus), Ok(7));
    for bad in ["", "-", "+", "1a", " 1", "१२"] {
        let found = Some(vec![Some("x".to_string()), Some(bad.to_string())]);
        assert_eq!(volume_of_captures(&found).unwrap_err().kind, ErrorKind::ParseFailure);
    }
    assert_eq!(volume_of_captures(&None).unwrap_err().kind, ErrorKind::ParseFailure);
    assert_eq!(value_of_captures(&Some(vec![])).unwrap_err().kind, ErrorKind::ParseFailure);
    assert_eq!(
        volume_of_captures(&Some(vec![Some("x".to_string())])).unwrap_err().kind,
        ErrorKind::ParseFailure
    );
    assert_eq!(
        value_of_captures(&Some(vec![Some("x".to_string()), None])).unwrap_err().kind,
        ErrorKind::ParseFailure
    );
}

#[test]
fn set_volume_clamps_and_formats() {
    assert_eq!(
        set_volume("2", "PCM-AN1-PH3", 150, &[]),
        Step::Run(amixer(&["-c", "2", "set", "PCM-AN1-PH3", "100%"]))
    );
    assert_eq!(
        set_volume("2", "PCM-AN1-PH3", -3, &[]),
        Step::Run(amixer(&["-c", "2", "set", "PCM-AN1-PH3", "0%"]))
    );
    assert_eq!(
        set_volume("2", "PCM-AN1-PH3", 42, &[]),
        Step::Run(amixer(&["-c", "2", "set", "PCM-AN1-PH3", "42%"]))
    );
}

#[test]
fn write_reports_what_came_of_the_command() {
    assert_eq!(set_volume("2", "PCM", 42, &[ok("")]), Step::Done(Ok(())));
    assert_eq!(
        set_volume("2", "PCM", 42, &[rejected("amixer: Unable to find simple control 'PCM',0\n")]),
        Step::Done(Err(ControlError {
            kind: ErrorKind::CommandRejected,
            message: "amixer: Unable to find simple control 'PCM',0\n".to_string(),
        }))
    );
    assert_eq!(
        set_volume("2", "PCM", 42, &[Launch::Failed("No such file or directory".to_string())]),
        Step::Done(Err(ControlError {
            kind: ErrorKind::ExecutionFailure,
            message: "No such file or directory".to_string(),
        }))
    );
}

#[test]
fn get_volume_asks_then_parses() {
    assert_eq!(
        get_volume("2", "PCM-AN1-PH3", &[]),
        Step::Run(amixer(&["-c", "2", "get", "PCM-AN1-PH3"]))
    );
    assert_eq!(get_volume("2", "PCM-AN1-PH3", &[ok(PCM)]), Step::Done(Ok(50)));
    assert_eq!(
        get_volume("2", "PCM-AN1-PH3", &[rejected("no such control")]),
        Step::Done(Err(ControlError {
            kind: ErrorKind::CommandRejected,
            message: "no such control".to_string(),
        }))
    );
}

#[test]
fn input_gain_is_sent_as_it_is() {
    assert_eq!(
        set_input_gain("2", "Mic-AN1 Gain", 65, &[]),
        Step::Run(amixer(&["-c", "2", "set", "Mic-AN1 Gain", "65"]))
    );
    assert_eq!(
        set_input_gain("2", "Mic-AN1 Gain", -12, &[]),
        Step::Run(amixer(&["-c", "2", "set", "Mic-AN1 Gain", "-12"]))
    );
    assert_eq!(
        set_input_gain("2", "Mic-AN1 Gain", i32::MIN, &[]),
        Step::Run(amixer(&["-c", "2", "set", "Mic-AN1 Gain", "-2147483648"]))
    );
    assert_eq!(set_input_gain("2", "Mic-AN1 Gain", 65, &[ok("")]), Step::Done(Ok(())));
    assert_eq!(
        get_input_gain("2", "Mic-AN1 Gain", &[]),
        Step::Run(amixer(&["-c", "2", "get", "Mic-AN1 Gain"]))
    );
    assert_eq!(get_input_gain("2", "Mic-AN1 Gain", &[ok(GAIN)]), Step::Done(Ok(12)));
}

#[test]
fn routing_names_the_cell_by_its_two_ends() {
    assert_eq!(
        set_routing_volume("2", "PCM-AN1", "PH3", 50, &[]),
        Step::Run(amixer(&["-c", "2", "set", "PCM-AN1-PH3", "50%"]))
    );
    assert_eq!(
        set_routing_volume("2", "PCM-AN1", "PH3", 1000, &[]),
        Step::Run(amixer(&["-c", "2", "set", "PCM-AN1-PH3", "100%"]))
    );
    assert_eq!(
        get_routing_volume("2", "PCM-AN1", "PH3", &[]),
        Step::Run(amixer(&["-c", "2", "get", "PCM-AN1-PH3"]))
    );
    assert_eq!(get_routing_volume("2", "PCM-AN1", "PH3", &[ok(PCM)]), Step::Done(Ok(32768)));
}

#[test]
fn send_level_is_a_clamped_percentage() {
    assert_eq!(
        set_channel_send_level("2", "Mic-AN1", "AN1", 73, &[]),
        Step::Run(amixer(&["-c", "2", "set", "Mic-AN1-AN1", "73%"]))
    );
    assert_eq!(
        set_channel_send_level("2", "Mic-AN1", "AN1", -20, &[]),
        Step::Run(amixer(&["-c", "2", "set", "Mic-AN1-AN1", "0%"]))
    );
    assert_eq!(
        get_channel_send_level("2", "Mic-AN1", "AN1", &[]),
        Step::Run(amixer(&["-c", "2", "get", "Mic-AN1-AN1"]))
    );
    assert_eq!(get_channel_send_level("2", "Mic-AN1", "AN1", &[ok(PCM)]), Step::Done(Ok(50)));
}
