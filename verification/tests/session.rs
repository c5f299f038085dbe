use soundcard_control::alsa_control;
use soundcard_control::audio_control::{
    change_buffer_size, find_number, get_initial_states, get_volume, initialize_sound_card,
    set_volume,
};
use soundcard_control::cache::{CardCache, IdentifierCache};
use soundcard_control::command::{Invocation, Launch, ProcessOutput, Step};
use soundcard_control::error::{ControlError, ErrorKind};
use soundcard_control::pipewire_control::{
    find_pipewire_ids, get_gain, get_input_gain, set_gain, set_input_gain,
};

fn ok(stdout: &str) -> Launch {
    Launch::Finished(ProcessOutput {
        success: true,
        stdout: stdout.to_string(),
        stderr: String::new(),
    })
}

fn failed(stderr: &str) -> Launch {
    Launch::Finished(ProcessOutput {
        success: false,
        stdout: String::new(),
        stderr: stderr.to_string(),
    })
}

fn command(program: &str, args: &[&str]) -> Invocation {
    Invocation {
        program: program.to_string(),
        args: args.iter().map(|a| a.to_string()).collect(),
    }
}

fn not_initialized<T>() -> Step<T> {
    Step::Done(Err(ControlError {
        kind: ErrorKind::NotFound,
        message: "Sound card number not initialized".to_string(),
    }))
}

const APLAY: &str = "**** List of PLAYBACK Hardware Devices ****
card 0: PCH [HDA Intel PCH], device 0: ALC3246 Analog [ALC3246 Analog]
card 2: Pro70785713 [Babyface Pro (70785713)], device 0: USB Audio [USB Audio]
";

const DUMP: &str = "\tid: 61
*\t\tnode.id = \"30\"
*\t\tport.name = \"capture_AUX0\"
\tid: 62
*\t\tnode.id = \"31\"
*\t\tport.name = \"capture_AUX1\"
";

const PARAMS: &str = "    Prop: key Spa:Pod:Object:Param:Props:volume (65539), flags 00000000
      Float 0.250000
";

#[test]
fn same_port_resolved_twice_leaves_one_entry() {
    let mut cache = IdentifierCache::new();
    assert_eq!(cache.len(), 0);
    let dump = command("pw-cli", &["info", "all"]);
    assert_eq!(cache.resolve("capture_AUX0", &[]), Step::Run(dump.clone()));
    assert_eq!(cache.resolve("capture_AUX0", &[]), Step::Run(dump));
    assert_eq!(cache.len(), 0);
    assert_eq!(cache.resolve("capture_AUX0", &[ok(DUMP)]), Step::Done(Ok("30".to_string())));
    let replugged = "id: 9\nnode.id = 77\nport.name = capture_AUX0\n";
    cache.remember("capture_AUX0", "77".to_string());
    assert_eq!(cache.len(), 1);
    assert_eq!(cache.lookup("capture_AUX0"), Some("77".to_string()));
    assert_eq!(cache.resolve("capture_AUX0", &[ok(replugged)]), Step::Done(Ok("77".to_string())));
    assert_eq!(cache.len(), 1);
}

#[test]
fn cached_port_needs_no_command() {
    let mut cache = IdentifierCache::new();
    assert_eq!(cache.resolve("capture_AUX1", &[ok(DUMP)]), Step::Done(Ok("31".to_string())));
    assert_eq!(cache.resolve("capture_AUX1", &[]), Step::Done(Ok("31".to_string())));
    assert_eq!(
        cache.resolve("capture_AUX1", &[Launch::Failed("gone".to_string())]),
        Step::Done(Ok("31".to_string()))
    );
    assert_eq!(cache.lookup("capture_AUX0"), None);
}

#[test]
fn failed_resolution_is_not_cached() {
    let mut cache = IdentifierCache::new();
    assert_eq!(
        cache.resolve("capture_AUX9", &[ok(DUMP)]),
        Step::Done(Err(ControlError {
            kind: ErrorKind::NotFound,
            message: "Could not find node ID for port name: capture_AUX9".to_string(),
        }))
    );
    assert_eq!(cache.len(), 0);
    assert_eq!(cache.lookup("capture_AUX9"), None);
}

#[test]
fn cache_is_stale_until_it_is_cleared() {
    let mut cache = IdentifierCache::new();
    assert_eq!(cache.resolve("capture_AUX0", &[ok(DUMP)]), Step::Done(Ok("30".to_string())));
    let replugged = "id: 9\nnode.id = 77\nport.name = capture_AUX0\n";
    assert_eq!(cache.resolve("capture_AUX0", &[ok(replugged)]), Step::Done(Ok("30".to_string())));
    cache.clear();
    assert_eq!(cache.len(), 0);
    assert_eq!(cache.resolve("capture_AUX0", &[ok(replugged)]), Step::Done(Ok("77".to_string())));
}

#[test]
fn session_card_is_resolved_once() {
    let mut card = CardCache::new();
    assert_eq!(card.number, None);
    assert_eq!(
        initialize_sound_card(&mut card, "Babyface", &[]),
        Step::Run(command("aplay", &["-l"]))
    );
    assert_eq!(card.number, None);
    assert_eq!(initialize_sound_card(&mut card, "Babyface", &[ok(APLAY)]), Step::Done(Ok(2)));
    assert_eq!(card.number, Some(2));
    assert_eq!(
        initialize_sound_card(&mut card, "Scarlett", &[ok(APLAY)]),
        Step::Done(Err(ControlError {
            kind: ErrorKind::NotFound,
            message: "Sound card 'Scarlett' not found".to_string(),
        }))
    );
    assert_eq!(card.number, Some(2));
    assert_eq!(
        alsa_control::find_sound_card_number(&mut card, "HDA", &[ok(APLAY)]),
        Step::Done(Ok(0))
    );
    assert_eq!(card.number, Some(0));
    assert_eq!(
        initialize_sound_card(&mut card, "HDA", &[Launch::Failed("gone".to_string())]),
        Step::Done(Err(ControlError {
            kind: ErrorKind::ExecutionFailure,
            message: "gone".to_string(),
        }))
    );
}

#[test]
fn card_number_is_read_as_a_number() {
    assert_eq!(find_number(APLAY, "Babyface"), Some(2));
    assert_eq!(find_number("x card7: Babyface\n", "Babyface"), Some(7));
    assert_eq!(find_number("x cardcard12::: Babyface\n", "Babyface"), Some(12));
    assert_eq!(find_number("x +3: Babyface\n", "Babyface"), Some(3));
    assert_eq!(find_number("x 4294967295: Babyface\n", "Babyface"), Some(u32::MAX));
    assert_eq!(find_number("x 4294967296: Babyface\n", "Babyface"), None);
    assert_eq!(find_number("x -3: Babyface\n", "Babyface"), None);
    assert_eq!(find_number("Babyface one\ncard 5: Babyface\n", "Babyface"), Some(5));
    assert_eq!(find_number("Babyface\n", "Babyface"), None);
}

#[test]
fn operations_on_the_session_card_want_it_resolved() {
    let card = CardCache::new();
    assert_eq!(set_volume(&card, "PCM", 10, &[]), not_initialized());
    assert_eq!(set_volume(&card, "PCM", 10, &[ok("")]), not_initialized());
    assert_eq!(get_volume(&card, "PCM", &[]), not_initialized());
    assert_eq!(get_initial_states(&card, &[]), not_initialized());
    assert_eq!(alsa_control::set_phantom_power(&card, "Mic", true, &[]), not_initialized());
}

#[test]
fn operations_on_the_session_card_address_it_by_number() {
    let card = CardCache { number: Some(2) };
    assert_eq!(
        set_volume(&card, "PCM", 110, &[]),
        Step::Run(command("amixer", &["-c", "2", "set", "PCM", "100%"]))
    );
    assert_eq!(set_volume(&card, "PCM", 110, &[ok("")]), Step::Done(Ok(())));
    assert_eq!(
        get_volume(&card, "PCM", &[]),
        Step::Run(command("amixer", &["-c", "2", "get", "PCM"]))
    );
    assert_eq!(get_volume(&card, "PCM", &[ok("Mono: 5 [33%]")]), Step::Done(Ok(33)));
    assert_eq!(
        alsa_control::set_phantom_power(&card, "Mic-AN1 48V", true, &[]),
        Step::Run(command("amixer", &["-c", "2", "set", "Mic-AN1 48V", "on"]))
    );
    assert_eq!(
        alsa_control::get_volume(&CardCache { number: Some(4294967295) }, "PCM", &[]),
        Step::Run(command("amixer", &["-c", "4294967295", "get", "PCM"]))
    );
}

#[test]
fn initial_states_are_headphones_then_monitors() {
    let card = CardCache { number: Some(2) };
    assert_eq!(
        get_initial_states(&card, &[]),
        Step::Run(command("amixer", &["-c", "2", "get", "PCM-AN1-PH3"]))
    );
    assert_eq!(
        get_initial_states(&card, &[ok("[40%]")]),
        Step::Run(command("amixer", &["-c", "2", "get", "PCM-AN1-AN1"]))
    );
    assert_eq!(get_initial_states(&card, &[ok("[40%]"), ok("[70%]")]), Step::Done(Ok((40, 70))));
    assert_eq!(
        get_initial_states(&card, &[failed("no control")]),
        Step::Done(Err(ControlError {
            kind: ErrorKind::CommandRejected,
            message: "no control".to_string(),
        }))
    );
    assert_eq!(
        get_initial_states(&card, &[ok("[40%]"), ok("nothing")]),
        Step::Done(Err(ControlError {
            kind: ErrorKind::ParseFailure,
            message: "Could not parse volume from amixer output".to_string(),
        }))
    );
    assert_eq!(
        alsa_control::get_initial_states(&card, &[ok("[1%]"), ok("[2%]")]),
        Step::Done(Ok((1, 2)))
    );
}

#[test]
fn buffer_size_is_changed_without_a_rule() {
    assert_eq!(
        change_buffer_size(100, &[]),
        Step::Run(command("pw-metadata", &["-n", "settings", "0", "clock.force-quantum", "100"]))
    );
    assert_eq!(
        change_buffer_size(0, &[]),
        Step::Run(command("pw-metadata", &["-n", "settings", "0", "clock.force-quantum", "0"]))
    );
    assert_eq!(change_buffer_size(100, &[ok("")]), Step::Done(Ok(())));
    assert_eq!(
        alsa_control::change_buffer_size(100, &[failed("bad")]),
        Step::Done(Err(ControlError {
            kind: ErrorKind::CommandRejected,
            message: "bad".to_string(),
        }))
    );
}

const SWITCH: &str = "Simple mixer control 'Mic-AN1 48V',0
  Mono: Playback [on]
Simple mixer control 'Line-IN3 Sens.',0
  Item0: '+4dBu'
";

#[test]
fn card_given_by_name_is_resolved_before_each_operation() {
    let listing = command("aplay", &["-l"]);
    assert_eq!(alsa_control::find_card_index("Babyface", &[]), Step::Run(listing.clone()));
    assert_eq!(
        alsa_control::find_card_index("Babyface", &[ok(APLAY)]),
        Step::Done(Ok("2".to_string()))
    );
    assert_eq!(
        alsa_control::get_phantom_power_state("Babyface", "Mic-AN1", &[]),
        Step::Run(listing.clone())
    );
    assert_eq!(
        alsa_control::get_phantom_power_state("Babyface", "Mic-AN1", &[ok(APLAY)]),
        Step::Run(command("amixer", &["-c", "2", "get", "Mic-AN1"]))
    );
    assert_eq!(
        alsa_control::get_phantom_power_state("Babyface", "Mic-AN1", &[ok(APLAY), ok(SWITCH)]),
        Step::Done(Ok(true))
    );
    assert_eq!(
        alsa_control::get_phantom_power_state("Scarlett", "Mic-AN1", &[ok(APLAY), ok(SWITCH)]),
        Step::Done(Err(ControlError {
            kind: ErrorKind::NotFound,
            message: "Could not find card with name: Scarlett".to_string(),
        }))
    );
    assert_eq!(
        alsa_control::get_line_input_sensitivity("HDA", "Line-IN3", &[ok(APLAY)]),
        Step::Run(command("amixer", &["-c", "0", "get", "Line-IN3"]))
    );
    assert_eq!(
        alsa_control::get_line_input_sensitivity("HDA", "Line-IN3", &[ok(APLAY), ok(SWITCH)]),
        Step::Done(Ok("+4dBu".to_string()))
    );
    assert_eq!(
        alsa_control::set_line_input_sensitivity("HDA", "Line-IN3", "-10dBV", &[ok(APLAY)]),
        Step::Run(command("amixer", &["-c", "0", "sset", "Line-IN3", "--", "-10dBV"]))
    );
    assert_eq!(
        alsa_control::set_line_input_sensitivity("HDA", "Line-IN3", "-10dBV", &[ok(APLAY), ok("")]),
        Step::Done(Ok(()))
    );
    match alsa_control::get_soundcard_controls("Babyface", &[ok(APLAY)]) {
        Step::Run(c) => assert_eq!(c, command("amixer", &["-c", "2"])),
        _ => panic!("the controls were not asked for"),
    }
    match alsa_control::get_soundcard_controls("Babyface", &[ok(APLAY), ok(SWITCH)]) {
        Step::Done(Ok(controls)) => {
            assert_eq!(controls.len(), 2);
            assert!(controls.contains_key("Mic-AN1 48V"));
            assert!(!controls.contains_key("Mic-AN1"));
        }
        _ => panic!("the controls were not read"),
    }
}

#[test]
fn both_identifiers_of_a_port() {
    assert_eq!(find_pipewire_ids("x", &[]), Step::Run(command("pw-cli", &["info", "all"])));
    assert_eq!(
        find_pipewire_ids("capture_AUX1", &[ok(DUMP)]),
        Step::Done(Ok(("31".to_string(), "62".to_string())))
    );
    assert_eq!(
        find_pipewire_ids("capture", &[ok(DUMP)]),
        Step::Done(Err(ControlError {
            kind: ErrorKind::NotFound,
            message: "Could not find IDs for port name: capture".to_string(),
        }))
    );
}

#[test]
fn gain_is_set_in_three_ways() {
    let node = command("pw-cli", &["set-param", "30", "Props", "{\"volume\": 0.5}"]);
    let object = command("pw-cli", &["set-param", "61", "Props", "{\"volume\": 0.5}"]);
    let port =
        command("pw-cli", &["set-param", "30", "Props", "{\"capture_AUX0:volume\": 0.5}"]);
    let set = |outcomes: &[Launch]| set_input_gain("30", "61", "capture_AUX0", "0.5", outcomes);
    assert_eq!(set(&[]), Step::Run(node));
    assert_eq!(set(&[failed("a")]), Step::Run(object));
    assert_eq!(set(&[failed("a"), ok("")]), Step::Run(port));
    assert_eq!(set(&[failed("a"), ok(""), failed("c")]), Step::Done(Ok(())));
    assert_eq!(set(&[ok(""), failed("b"), failed("c")]), Step::Done(Ok(())));
    assert_eq!(set(&[failed("a"), failed("b"), ok("")]), Step::Done(Ok(())));
    assert_eq!(
        set(&[failed("a"), failed("b"), failed("c")]),
        Step::Done(Err(ControlError {
            kind: ErrorKind::CommandRejected,
            message: "Failed to set input gain".to_string(),
        }))
    );
    let gone = Step::Done(Err(ControlError {
        kind: ErrorKind::ExecutionFailure,
        message: "gone".to_string(),
    }));
    assert_eq!(set(&[Launch::Failed("gone".to_string())]), gone);
    assert_eq!(set(&[ok(""), Launch::Failed("gone".to_string())]), gone);
    assert_eq!(set(&[ok(""), ok(""), Launch::Failed("gone".to_string())]), gone);
}

#[test]
fn gain_of_a_port_given_by_name() {
    assert_eq!(
        get_input_gain("30", &[]),
        Step::Run(command("pw-cli", &["enum-params", "30", "2"]))
    );
    assert_eq!(get_gain("capture_AUX0", &[]), Step::Run(command("pw-cli", &["info", "all"])));
    assert_eq!(
        get_gain("capture_AUX0", &[ok(DUMP)]),
        Step::Run(command("pw-cli", &["enum-params", "30", "2"]))
    );
    assert_eq!(
        get_gain("capture_AUX0", &[ok(DUMP), ok(PARAMS)]),
        Step::Done(Ok("0.250000".to_string()))
    );
    assert_eq!(
        set_gain("capture_AUX1", "1", &[ok(DUMP)]),
        Step::Run(command("pw-cli", &["set-param", "31", "Props", "{\"volume\": 1}"]))
    );
    assert_eq!(
        set_gain("capture_AUX1", "1", &[ok(DUMP), ok("")]),
        Step::Run(command("pw-cli", &["set-param", "62", "Props", "{\"volume\": 1}"]))
    );
    assert_eq!(
        set_gain("capture_AUX1", "1", &[ok(DUMP), ok(""), ok("")]),
        Step::Run(command(
            "pw-cli",
            &["set-param", "31", "Props", "{\"capture_AUX1:volume\": 1}"]
        ))
    );
    assert_eq!(
        set_gain("capture_AUX1", "1", &[ok(DUMP), ok(""), ok(""), failed("x")]),
        Step::Done(Ok(()))
    );
    assert_eq!(
        set_gain("nowhere", "1", &[ok(DUMP)]),
        Step::Done(Err(ControlError {
            kind: ErrorKind::NotFound,
            message: "Could not find IDs for port name: nowhere".to_string(),
        }))
    );
}
