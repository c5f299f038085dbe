use soundcard_control::alsa::controller as alsa;
use soundcard_control::alsa::general::{
    card_listing_command, find_babyface_card, find_card_number, get_card_number_by_name,
    usb_id_paths,
};
use soundcard_control::command::{Invocation, Launch, ProcessOutput, Step};
use soundcard_control::error::{ControlError, ErrorKind};
use soundcard_control::pipewire::controller as pipewire;
use soundcard_control::state::AppState;

fn finished(stdout: &str) -> Launch {
    Launch::Finished(ProcessOutput {
        success: true,
        stdout: stdout.to_string(),
        stderr: String::new(),
    })
}

fn command(program: &str, args: &[&str]) -> Invocation {
    Invocation {
        program: program.to_string(),
        args: args.iter().map(|a| a.to_string()).collect(),
    }
}

const APLAY: &str = "**** List of PLAYBACK Hardware Devices ****
card 0: PCH [HDA Intel PCH], device 0: ALC3246 Analog [ALC3246 Analog]
  Subdevices: 1/1
  Subdevice #0: subdevice #0
card 2: Pro70785713 [Babyface Pro (70785713)], device 0: USB Audio [USB Audio]
  Subdevices: 1/1
  Subdevice #0: subdevice #0
";

const PACTL: &str = "47\talsa_card.pci-0000_00_1f.3\talsa
52\talsa_card.usb-RME_Babyface_Pro__70785713\talsa
";

#[test]
fn card_number_is_the_index_of_the_matching_line() {
    assert_eq!(
        get_card_number_by_name("Babyface Pro", &[finished(APLAY)]),
        Step::Done(Ok("2".to_string()))
    );
    assert_eq!(
        get_card_number_by_name("HDA Intel", &[finished(APLAY)]),
        Step::Done(Ok("0".to_string()))
    );
}

#[test]
fn every_card_of_the_listing_resolves_to_its_own_index() {
    let names = [("PCH", "0"), ("HDA Intel PCH", "0"), ("Pro70785713", "2"), ("Babyface", "2")];
    for (name, index) in names {
        assert_eq!(find_card_number(APLAY, name), Some(index.to_string()));
    }
}

#[test]
fn card_number_of_an_unknown_card_is_not_found() {
    assert_eq!(
        get_card_number_by_name("Scarlett", &[finished(APLAY)]),
        Step::Done(Err(ControlError {
            kind: ErrorKind::NotFound,
            message: "Could not find card with name: Scarlett".to_string(),
        }))
    );
}

#[test]
fn line_without_a_number_is_passed_over() {
    assert_eq!(find_card_number("Babyface\ncard 3: Babyface\n", "Babyface"), Some("3".to_string()));
    assert_eq!(find_card_number("Babyface\n", "Babyface"), None);
    assert_eq!(find_card_number("card 7::: x\n", "x"), Some("7".to_string()));
    assert_eq!(find_card_number("", "x"), None);
    assert_eq!(find_card_number("a b\n", "a"), None);
    assert_eq!(find_card_number("a b\n", ""), None);
    assert_eq!(find_card_number("a :\n", "a"), None);
    assert_eq!(find_card_number("a 1x: b\n", "a"), None);
    assert_eq!(find_card_number("a -1: b\n", "a"), None);
    assert_eq!(find_card_number("a b\na 12: b\n", "a"), Some("12".to_string()));
    assert_eq!(find_card_number("a 007 b\n", "a"), Some("007".to_string()));
}

#[test]
fn card_number_is_a_number_or_the_card_is_not_found() {
    assert_eq!(find_card_number(APLAY, "PLAYBACK"), None);
    assert_eq!(
        get_card_number_by_name("PLAYBACK", &[finished(APLAY)]),
        Step::Done(Err(ControlError {
            kind: ErrorKind::NotFound,
            message: "Could not find card with name: PLAYBACK".to_string(),
        }))
    );
    assert_eq!(
        get_card_number_by_name("a", &[finished("a b")]),
        Step::Done(Err(ControlError {
            kind: ErrorKind::NotFound,
            message: "Could not find card with name: a".to_string(),
        }))
    );
    for name in ["", "card", "device", "Subdevice", "USB Audio", "PCH", "Babyface"] {
        if let Some(number) = find_card_number(APLAY, name) {
            assert!(!number.is_empty() && number.chars().all(|c| c.is_ascii_digit()));
        }
    }
    assert_eq!(find_card_number(APLAY, "card"), Some("0".to_string()));
    assert_eq!(find_card_number(APLAY, "Subdevice"), None);
}

#[test]
fn card_listing_that_cannot_start_is_an_execution_failure() {
    assert_eq!(
        get_card_number_by_name(
            "Babyface",
            &[Launch::Failed("No such file or directory (os error 2)".to_string())]
        ),
        Step::Done(Err(ControlError {
            kind: ErrorKind::ExecutionFailure,
            message: "Failed to execute aplay: No such file or directory (os error 2)"
                .to_string(),
        }))
    );
}

#[test]
fn card_listing_command_is_aplay_l() {
    assert_eq!(card_listing_command(), command("aplay", &["-l"]));
    assert_eq!(get_card_number_by_name("x", &[]), Step::Run(command("aplay", &["-l"])));
}

const PROC_CARDS: &str = " 0 [PCH            ]: HDA-Intel - HDA Intel PCH
                      HDA Intel PCH at 0xb1228000 irq 145
 2 [Pro70785713    ]: USB-Audio - Babyface Pro (70785713)
                      RME Babyface Pro (70785713) at usb-0000:00:14.0-2, high speed
";

#[test]
fn usb_id_files_of_the_listed_cards() {
    assert_eq!(
        usb_id_paths(PROC_CARDS),
        vec![
            "/proc/asound/card0/usbid".to_string(),
            "/proc/asound/card2/usbid".to_string()
        ]
    );
    assert_eq!(usb_id_paths(""), Vec::<String>::new());
    assert_eq!(usb_id_paths("5 [x]\n"), vec!["/proc/asound/card5/usbid".to_string()]);
    assert_eq!(usb_id_paths("\n5 [x]\n"), Vec::<String>::new());
}

#[test]
fn interface_is_found_by_its_usb_id() {
    assert_eq!(
        find_babyface_card(PROC_CARDS, &[None, Some("2a39:3fb0\n".to_string())]),
        Ok("Pro70785713".to_string())
    );
    assert_eq!(
        find_babyface_card(PROC_CARDS, &[Some("2a39:3fb0".to_string()), None]),
        Ok("PCH".to_string())
    );
}

#[test]
fn interface_that_is_not_plugged_in_is_not_found() {
    let missing = Err(ControlError {
        kind: ErrorKind::NotFound,
        message: "No RME Babyface Pro found".to_string(),
    });
    assert_eq!(find_babyface_card(PROC_CARDS, &[None, Some("1234:5678\n".to_string())]), missing);
    assert_eq!(find_babyface_card(PROC_CARDS, &[]), missing);
    assert_eq!(find_babyface_card("", &[Some("2a39:3fb0".to_string())]), missing);
    assert_eq!(
        find_babyface_card(" 2 no brackets\n", &[Some("2a39:3fb0".to_string())]),
        missing
    );
}

#[test]
fn state_resolves_the_mixer_card_then_the_server_card() {
    assert_eq!(
        AppState::new("Pro70785713", "RME_Babyface_Pro", &[]),
        Step::Run(command("aplay", &["-l"]))
    );
    assert_eq!(
        AppState::new("Pro70785713", "RME_Babyface_Pro", &[finished(APLAY)]),
        Step::Run(command("pactl", &["list", "cards", "short"]))
    );
    assert_eq!(
        AppState::new("Pro70785713", "RME_Babyface_Pro", &[finished(APLAY), finished(PACTL)]),
        Step::Done(Ok(AppState {
            alsa_card_number: "2".to_string(),
            pipewire_card_id: "52".to_string(),
        }))
    );
}

#[test]
fn state_stops_at_the_first_card_that_is_missing() {
    assert_eq!(
        AppState::new("Scarlett", "RME_Babyface_Pro", &[finished(APLAY)]),
        Step::Done(Err(ControlError {
            kind: ErrorKind::NotFound,
            message: "Could not find card with name: Scarlett".to_string(),
        }))
    );
    assert_eq!(
        AppState::new("Pro70785713", "Scarlett", &[finished(APLAY), finished(PACTL)]),
        Step::Done(Err(ControlError {
            kind: ErrorKind::NotFound,
            message: "Could not find card with name: Scarlett".to_string(),
        }))
    );
    assert_eq!(
        AppState::new("Pro70785713", "x", &[finished(APLAY), Launch::Failed("gone".to_string())]),
        Step::Done(Err(ControlError {
            kind: ErrorKind::ExecutionFailure,
            message: "Failed to execute pactl: gone".to_string(),
        }))
    );
}

#[test]
fn operations_of_the_application_go_to_its_card() {
    let state = AppState {
        alsa_card_number: "2".to_string(),
        pipewire_card_id: "52".to_string(),
    };
    assert_eq!(
        alsa::get_alsa_volume(&state, "PCM".to_string(), &[]),
        Step::Run(command("amixer", &["-c", "2", "get", "PCM"]))
    );
    assert_eq!(
        alsa::set_alsa_volume(&state, "PCM".to_string(), 101, &[]),
        Step::Run(command("amixer", &["-c", "2", "set", "PCM", "100%"]))
    );
    assert_eq!(
        alsa::get_alsa_volume(&state, "PCM".to_string(), &[finished("[12%]")]),
        Step::Done(Ok(12))
    );
    assert_eq!(
        alsa::set_input_gain(&state, "Mic-AN1 Gain".to_string(), 30, &[]),
        Step::Run(command("amixer", &["-c", "2", "set", "Mic-AN1 Gain", "30"]))
    );
    assert_eq!(
        alsa::get_input_gain(&state, "Mic-AN1 Gain".to_string(), &[finished("  Mono: 30 [46%]\n")]),
        Step::Done(Ok(30))
    );
    assert_eq!(
        alsa::set_phantom_power(&state, "Mic-AN1 48V".to_string(), true, &[]),
        Step::Run(command("amixer", &["-c", "2", "set", "Mic-AN1 48V", "on"]))
    );
    assert_eq!(
        alsa::set_pad_state(&state, "Mic-AN1 PAD".to_string(), false, &[]),
        Step::Run(command("amixer", &["-c", "2", "set", "Mic-AN1 PAD", "off"]))
    );
    let switch = "Simple mixer control 'Mic-AN1 48V',0\n  Mono: Playback [on]\n";
    assert_eq!(
        alsa::get_phantom_power_state(&state, "Mic-AN1".to_string(), &[finished(switch)]),
        Step::Done(Ok(true))
    );
    assert_eq!(
        alsa::get_pad_state(&state, "Mic-AN1".to_string(), &[finished(switch)]),
        Step::Done(Ok(true))
    );
    assert_eq!(
        alsa::set_line_input_sensitivity(&state, "Line".to_string(), "+4dBu".to_string(), &[]),
        Step::Run(command("amixer", &["-c", "2", "sset", "Line", "--", "+4dBu"]))
    );
    assert_eq!(
        alsa::get_line_input_sensitivity(
            &state,
            "Line".to_string(),
            &[finished("Simple mixer control 'Line'\n  Item0: '+4dBu'\n")]
        ),
        Step::Done(Ok("+4dBu".to_string()))
    );
    match alsa::get_soundcard_controls(&state, &[]) {
        Step::Run(c) => assert_eq!(c, command("amixer", &["-c", "2"])),
        _ => panic!("no command was asked for"),
    }
    assert_eq!(
        pipewire::get_pipewire_active_profile(&state, &[]),
        Step::Run(command("pactl", &["list", "cards"]))
    );
    let cards = "Card #52\n\tActive Profile: pro-audio\n";
    assert_eq!(
        pipewire::get_pipewire_active_profile(&state, &[finished(cards)]),
        Step::Done(Ok("pro-audio".to_string()))
    );
    assert_eq!(
        pipewire::set_pipewire_profile(&state, "off".to_string(), &[]),
        Step::Run(command("pactl", &["set-card-profile", "52", "off"]))
    );
    assert_eq!(
        pipewire::get_pipewire_profiles(&state, &[finished(cards)]),
        Step::Done(Err(ControlError {
            kind: ErrorKind::NotFound,
            message: "Could not find profiles for card id: 52".to_string(),
        }))
    );
    assert_eq!(
        pipewire::set_buffer_size(&state, 64, &[]),
        Step::Run(command("pw-metadata", &["-n", "settings", "0", "clock.force-quantum", "64"]))
    );
    assert_eq!(
        pipewire::set_buffer_size(&state, 65, &[]),
        Step::Done(Err(ControlError {
            kind: ErrorKind::InvalidValue,
            message: "The buffer size must be a power of two between 32 and 8192".to_string(),
        }))
    );
}
